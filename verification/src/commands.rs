//! Drawing commands: the closed set of things a request can ask for, and what becomes of
//! a canvas when they are carried out in order.

use vstd::prelude::*;
use crate::canvas::Canvas;
use crate::codecs::png::{encode_to_png, encoded};
use crate::error::ImageError;
use crate::naming::{snake_case, title_case, to_snake_case, to_title_case};
use crate::rgba::Rgba;
use crate::rgba_image::{blank, painted, with_pixel, Grid};
use crate::shape::{
    disc_covers, rect_covers, ring_covers, rounded_rect_covers, rounded_stroke_rect_covers,
    stroke_rect_covers,
};
use crate::text::{composited, inside, GlyphPixel};

verus! {

/// The largest width and the largest height that a request may ask for.
pub const MAX_SIDE: u32 = 4096;

/// Why the size of a requested image is refused.
#[derive(Debug, Clone, Copy, PartialEq, Eq, Structural)]
pub enum SizeError {
    /// The width or the height is 0.
    Empty,
    /// The width or the height is above `MAX_SIDE`.
    TooLarge,
}

/// One drawing command. Every kind carries the geometry it needs and a colour. Text
/// carries what became of rasterising it: the pixels of its glyphs, or nothing where the
/// font could not be read.
#[derive(Debug, Clone, PartialEq, Eq)]
pub enum DrawCommand {
    FilledRect { x: u32, y: u32, width: u32, height: u32, color: Rgba },
    StrokeRect { x: u32, y: u32, width: u32, height: u32, thickness: u32, color: Rgba },
    RoundedFilledRect { x: u32, y: u32, width: u32, height: u32, radius: u32, color: Rgba },
    RoundedStrokeRect {
        x: u32,
        y: u32,
        width: u32,
        height: u32,
        thickness: u32,
        radius: u32,
        color: Rgba,
    },
    FilledCircle { cx: u32, cy: u32, radius: u32, color: Rgba },
    StrokeCircle { cx: u32, cy: u32, radius: u32, thickness: u32, color: Rgba },
    Text { pixels: Option<Vec<GlyphPixel>>, color: Rgba },
    Pixel { x: u32, y: u32, color: Rgba },
}

/// What there is to know of one kind of command: its name in requests, a label to show,
/// a sentence on what it does, and the names of the fields it takes.
#[derive(Debug, Clone, PartialEq, Eq)]
pub struct CommandTypeInfo {
    pub value: String,
    pub label: String,
    pub description: String,
    pub fields: Vec<String>,
}

/// Why a request could not be rendered.
#[derive(Debug, Clone, Copy, PartialEq, Eq, Structural)]
pub enum RenderError {
    /// The size asked for is refused.
    Size(SizeError),
    /// The command at `index` failed; the commands after it were not carried out.
    Command { index: usize, error: ImageError },
    /// The finished image could not be encoded.
    Encode,
}

/// The verdict on the size of a requested image: both sides have to be at least 1 and at
/// most `MAX_SIDE`. An empty side is reported before one that is too large.
pub open spec fn size_verdict(width: u32, height: u32) -> Result<(), SizeError> {
    if width == 0 || height == 0 {
        Err(SizeError::Empty)
    } else if width > MAX_SIDE || height > MAX_SIDE {
        Err(SizeError::TooLarge)
    } else {
        Ok(())
    }
}

/// What one command makes of a grid: the grid with the shape drawn, or the reason why the
/// command is refused.
pub open spec fn command_outcome(rows: Grid, command: DrawCommand) -> Result<Grid, ImageError> {
    match command {
        DrawCommand::FilledRect { x, y, width, height, color } => Ok(
            painted(
                rows,
                |px: int, py: int|
                    rect_covers(x as int, y as int, width as int, height as int, px, py),
                color,
            ),
        ),
        DrawCommand::StrokeRect { x, y, width, height, thickness, color } => if thickness > width
            || thickness > height {
            Err(ImageError::Geometry)
        } else {
            Ok(
                painted(
                    rows,
                    |px: int, py: int|
                        stroke_rect_covers(
                            x as int,
                            y as int,
                            width as int,
                            height as int,
                            thickness as int,
                            px,
                            py,
                        ),
                    color,
                ),
            )
        },
        DrawCommand::RoundedFilledRect { x, y, width, height, radius, color } => Ok(
            painted(
                rows,
                |px: int, py: int|
                    rounded_rect_covers(
                        x as int,
                        y as int,
                        width as int,
                        height as int,
                        radius as int,
                        px,
                        py,
                    ),
                color,
            ),
        ),
        DrawCommand::RoundedStrokeRect { x, y, width, height, thickness, radius, color } => Ok(
            painted(
                rows,
                |px: int, py: int|
                    rounded_stroke_rect_covers(
                        x as int,
                        y as int,
                        width as int,
                        height as int,
                        thickness as int,
                        radius as int,
                        px,
                        py,
                    ),
                color,
            ),
        ),
        DrawCommand::FilledCircle { cx, cy, radius, color } => Ok(
            painted(
                rows,
                |px: int, py: int| disc_covers(cx as int, cy as int, radius as int, px, py),
                color,
            ),
        ),
        DrawCommand::StrokeCircle { cx, cy, radius, thickness, color } => if thickness > radius {
            Err(ImageError::Geometry)
        } else {
            Ok(
                painted(
                    rows,
                    |px: int, py: int|
                        ring_covers(cx as int, cy as int, radius as int, thickness as int, px, py),
                    color,
                ),
            )
        },
        DrawCommand::Text { pixels, color } => match pixels {
            Some(found) => Ok(composited(rows, found@, color)),
            None => Err(ImageError::Font),
        },
        DrawCommand::Pixel { x, y, color } => if inside(rows, x as int, y as int) {
            Ok(with_pixel(rows, x as int, y as int, color))
        } else {
            Err(ImageError::OutOfBounds)
        },
    }
}

/// What a list of commands makes of a grid when they are carried out first to last, each
/// on what the one before it left: the final grid, or the place of the first command
/// that is refused together with the reason.
pub open spec fn commands_outcome(rows: Grid, commands: Seq<DrawCommand>) -> Result<
    Grid,
    (int, ImageError),
>
    decreases commands.len(),
{
    if commands.len() == 0 {
        Ok(rows)
    } else {
        match commands_outcome(rows, commands.drop_last()) {
            Ok(drawn) => match command_outcome(drawn, commands.last()) {
                Ok(done) => Ok(done),
                Err(error) => Err((commands.len() - 1, error)),
            },
            Err(failure) => Err(failure),
        }
    }
}

/// The grid a request starts from: blank, or filled with the background where one is
/// given.
pub open spec fn background_grid(width: u32, height: u32, background: Option<Rgba>) -> Grid {
    match background {
        Some(color) => painted(
            blank(width as nat, height as nat),
            |px: int, py: int| rect_covers(0, 0, width as int, height as int, px, py),
            color,
        ),
        None => blank(width as nat, height as nat),
    }
}

/// Says that `info` describes the kind of command named `name` in camel case: its value
/// is the name in snake case, its label the name as a title, and description and fields
/// are the ones given.
pub open spec fn describes(
    info: CommandTypeInfo,
    name: Seq<char>,
    description: Seq<char>,
    fields: Seq<&str>,
) -> bool {
    &&& info.value@ == snake_case(name)
    &&& info.label@ == title_case(name)
    &&& info.description@ == description
    &&& info.fields@.len() == fields.len()
    &&& forall|i: int| 0 <= i < fields.len() ==> (#[trigger] info.fields@[i])@ == fields[i]@
}

/// Describes one kind of command.
fn describe(name: &str, description: &str, fields: &[&str]) -> (info: CommandTypeInfo)
    ensures
        describes(info, name@, description@, fields@),
{
    let mut names: Vec<String> = Vec::new();
    let mut i: usize = 0;
    while i < fields.len()
        invariant
            i <= fields@.len(),
            names@.len() == i,
            forall|k: int| 0 <= k < i ==> (#[trigger] names@[k])@ == fields@[k]@,
        decreases fields@.len() - i,
    {
        names.push(fields[i].to_owned());
        i += 1;
    }
    CommandTypeInfo {
        value: to_snake_case(name),
        label: to_title_case(name),
        description: description.to_owned(),
        fields: names,
    }
}

impl DrawCommand {
    /// Describes every kind of command, in the order in which the kinds are declared.
    pub fn get_all_types() -> (types: Vec<CommandTypeInfo>)
        ensures
            types@.len() == 8,
            describes(
                types@[0],
                "FilledRect"@,
                "Draw a filled rectangle"@,
                seq!["x", "y", "width", "height", "color"],
            ),
            describes(
                types@[1],
                "StrokeRect"@,
                "Draw a rectangle outline"@,
                seq!["x", "y", "width", "height", "thickness", "color"],
            ),
            describes(
                types@[2],
                "RoundedFilledRect"@,
                "Draw a filled rectangle with rounded corners"@,
                seq!["x", "y", "width", "height", "radius", "color"],
            ),
            describes(
                types@[3],
                "RoundedStrokeRect"@,
                "Draw a rounded rectangle outline"@,
                seq!["x", "y", "width", "height", "thickness", "radius", "color"],
            ),
            describes(
                types@[4],
                "FilledCircle"@,
                "Draw a filled circle"@,
                seq!["cx", "cy", "radius", "color"],
            ),
            describes(
                types@[5],
                "StrokeCircle"@,
                "Draw a circle outline"@,
                seq!["cx", "cy", "radius", "thickness", "color"],
            ),
            describes(
                types@[6],
                "Text"@,
                "Draw text"@,
                seq!["text", "x", "y", "font_size", "color"],
            ),
            describes(types@[7], "Pixel"@, "Draw a single pixel"@, seq!["x", "y", "color"]),
    {
        let mut types: Vec<CommandTypeInfo> = Vec::new();
        let filled_rect = ["x", "y", "width", "height", "color"];
        let stroke_rect = ["x", "y", "width", "height", "thickness", "color"];
        let rounded_filled_rect = ["x", "y", "width", "height", "radius", "color"];
        let rounded_stroke_rect = ["x", "y", "width", "height", "thickness", "radius", "color"];
        let filled_circle = ["cx", "cy", "radius", "color"];
        let stroke_circle = ["cx", "cy", "radius", "thickness", "color"];
        let text = ["text", "x", "y", "font_size", "color"];
        let pixel = ["x", "y", "color"];
        proof {
            assert(filled_rect@ =~= seq!["x", "y", "width", "height", "color"]);
            assert(stroke_rect@ =~= seq!["x", "y", "width", "height", "thickness", "color"]);
            assert(rounded_filled_rect@ =~= seq!["x", "y", "width", "height", "radius", "color"]);
            assert(rounded_stroke_rect@ =~= seq![
                "x",
                "y",
                "width",
                "height",
                "thickness",
                "radius",
                "color",
            ]);
            assert(filled_circle@ =~= seq!["cx", "cy", "radius", "color"]);
            assert(stroke_circle@ =~= seq!["cx", "cy", "radius", "thickness", "color"]);
            assert(text@ =~= seq!["text", "x", "y", "font_size", "color"]);
            assert(pixel@ =~= seq!["x", "y", "color"]);
        }
        types.push(describe("FilledRect", "Draw a filled rectangle", filled_rect.as_slice()));
        types.push(describe("StrokeRect", "Draw a rectangle outline", stroke_rect.as_slice()));
        types.push(
            describe(
                "RoundedFilledRect",
                "Draw a filled rectangle with rounded corners",
                rounded_filled_rect.as_slice(),
            ),
        );
        types.push(
            describe(
                "RoundedStrokeRect",
                "Draw a rounded rectangle outline",
                rounded_stroke_rect.as_slice(),
            ),
        );
        types.push(describe("FilledCircle", "Draw a filled circle", filled_circle.as_slice()));
        types.push(describe("StrokeCircle", "Draw a circle outline", stroke_circle.as_slice()));
        types.push(describe("Text", "Draw text", text.as_slice()));
        types.push(describe("Pixel", "Draw a single pixel", pixel.as_slice()));
        types
    }
}

/// Says whether the size of a requested image is acceptable.
pub fn check_size(width: u32, height: u32) -> (result: Result<(), SizeError>)
    ensures
        result == size_verdict(width, height),
{
    if width == 0 || height == 0 {
        Err(SizeError::Empty)
    } else if width > MAX_SIDE || height > MAX_SIDE {
        Err(SizeError::TooLarge)
    } else {
        Ok(())
    }
}

impl Canvas {
    /// Carries out one command. A command that is refused leaves the image untouched.
    pub fn apply(&mut self, command: &DrawCommand) -> (result: Result<(), ImageError>)
        ensures
            final(self).image.width() == old(self).image.width(),
            final(self).image.height() == old(self).image.height(),
            match command_outcome(old(self).image@, *command) {
                Ok(rows) => result is Ok && final(self).image@ == rows,
                Err(error) => result == Err::<(), ImageError>(error) && *final(self) == *old(
                    self,
                ),
            },
    {
        proof {
            self.image.lemma_view_is_grid();
        }
        match command {
            DrawCommand::FilledRect { x, y, width, height, color } => {
                self.draw_filled_rect(*x, *y, *width, *height, *color);
                Ok(())
            },
            DrawCommand::StrokeRect { x, y, width, height, thickness, color } => {
                match self.draw_stroke_rect(*x, *y, *width, *height, *thickness, *color) {
                    Ok(_) => Ok(()),
                    Err(error) => Err(error),
                }
            },
            DrawCommand::RoundedFilledRect { x, y, width, height, radius, color } => {
                self.draw_rounded_filled_rect(*x, *y, *width, *height, *radius, *color);
                Ok(())
            },
            DrawCommand::RoundedStrokeRect { x, y, width, height, thickness, radius, color } => {
                self.draw_rounded_stroke_rect(*x, *y, *width, *height, *thickness, *radius, *color);
                Ok(())
            },
            DrawCommand::FilledCircle { cx, cy, radius, color } => {
                self.draw_filled_circle(*cx, *cy, *radius, *color);
                Ok(())
            },
            DrawCommand::StrokeCircle { cx, cy, radius, thickness, color } => {
                match self.draw_stroke_circle(*cx, *cy, *radius, *thickness, *color) {
                    Ok(_) => Ok(()),
                    Err(error) => Err(error),
                }
            },
            DrawCommand::Text { pixels, color } => {
                match pixels {
                    Some(found) => {
                        self.draw_glyph_pixels(found.as_slice(), *color);
                        Ok(())
                    },
                    None => Err(ImageError::Font),
                }
            },
            DrawCommand::Pixel { x, y, color } => {
                match self.draw_pixel(*x, *y, *color) {
                    Ok(_) => Ok(()),
                    Err(error) => Err(error),
                }
            },
        }
    }

    /// Carries out the commands in the order given and stops at the first that is
    /// refused, which leaves the image as the commands before it made it.
    pub fn apply_all(
        &mut self,
        commands: &[DrawCommand],
    ) -> (result: Result<(), (usize, ImageError)>)
        ensures
            final(self).image.width() == old(self).image.width(),
            final(self).image.height() == old(self).image.height(),
            match commands_outcome(old(self).image@, commands@) {
                Ok(rows) => result is Ok && final(self).image@ == rows,
                Err(failure) => result matches Err(found) && found.0 == failure.0 && found.1
                    == failure.1 && commands_outcome(
                    old(self).image@,
                    commands@.take(failure.0),
                ) == Ok::<Grid, (int, ImageError)>(final(self).image@),
            },
    {
        let ghost before = self.image@;
        let mut i: usize = 0;
        while i < commands.len()
            invariant
                i <= commands@.len(),
                before == old(self).image@,
                self.image.width() == old(self).image.width(),
                self.image.height() == old(self).image.height(),
                commands_outcome(before, commands@.take(i as int)) == Ok::<
                    Grid,
                    (int, ImageError),
                >(self.image@),
            decreases commands@.len() - i,
        {
            let ghost drawn = self.image@;
            proof {
                let next = commands@.take(i + 1);
                assert(next.drop_last() =~= commands@.take(i as int));
                assert(next.last() == commands@[i as int]);
            }
            match self.apply(&commands[i]) {
                Ok(()) => {},
                Err(error) => {
                    proof {
                        let next = commands@.take(i + 1);
                        assert(command_outcome(drawn, next.last()) == Err::<
                            Grid,
                            ImageError,
                        >(error));
                        assert(commands_outcome(before, next) == Err::<
                            Grid,
                            (int, ImageError),
                        >((i as int, error)));
                        lemma_failure_stays(before, commands@, i + 1);
                    }
                    return Err((i, error));
                },
            }
            i += 1;
        }
        proof {
            assert(commands@.take(commands@.len() as int) =~= commands@);
        }
        Ok(())
    }
}

/// Once the first `count` commands of a list have failed, the whole list fails at the
/// same place and for the same reason.
pub proof fn lemma_failure_stays(rows: Grid, commands: Seq<DrawCommand>, count: int)
    requires
        0 <= count <= commands.len(),
        commands_outcome(rows, commands.take(count)) is Err,
    ensures
        commands_outcome(rows, commands) == commands_outcome(rows, commands.take(count)),
    decreases commands.len() - count,
{
    if count < commands.len() {
        let next = commands.take(count + 1);
        assert(next.drop_last() =~= commands.take(count));
        lemma_failure_stays(rows, commands, count + 1);
    } else {
        assert(commands.take(count) =~= commands);
    }
}

/// Renders a request: checks the size, starts from a blank canvas or one filled with the
/// background, carries out the commands in order, and encodes the result as PNG.
pub fn render(
    width: u32,
    height: u32,
    background: Option<Rgba>,
    commands: &[DrawCommand],
) -> (result: Result<Vec<u8>, RenderError>)
    ensures
        match size_verdict(width, height) {
            Err(error) => result == Err::<Vec<u8>, RenderError>(RenderError::Size(error)),
            Ok(()) => match commands_outcome(
                background_grid(width, height, background),
                commands@,
            ) {
                Err(failure) => result matches Err(RenderError::Command { index, error })
                    && index == failure.0 && error == failure.1,
                Ok(rows) => match encoded(width, height, rows) {
                    Some(stream) => result matches Ok(png) && png@ == stream,
                    None => result == Err::<Vec<u8>, RenderError>(RenderError::Encode),
                },
            },
        },
{
    match check_size(width, height) {
        Ok(()) => {},
        Err(error) => {
            return Err(RenderError::Size(error));
        },
    }
    proof {
        assert(width * height <= MAX_SIDE * MAX_SIDE) by (nonlinear_arith)
            requires
                width <= MAX_SIDE,
                height <= MAX_SIDE,
        ;
    }
    let mut canvas = Canvas::new(width, height);
    match background {
        Some(color) => {
            canvas.draw_filled_rect(0, 0, width, height, color);
        },
        None => {},
    }
    match canvas.apply_all(commands) {
        Ok(()) => {},
        Err(failure) => {
            return Err(RenderError::Command { index: failure.0, error: failure.1 });
        },
    }
    match encode_to_png(&canvas.image) {
        Ok(png) => Ok(png),
        Err(_) => Err(RenderError::Encode),
    }
}

} // verus!
