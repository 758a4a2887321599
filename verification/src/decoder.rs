//! The arguments that the decoder is started with: it plays the input at
//! its own pace, scales it to the screen and writes raw planar frames.

use vstd::prelude::*;
use vstd::string::*;
use crate::compose::terminal_rows;
use crate::style::{DisplayMode, PixelStyle};
use crate::text::{decimal, push_decimal, split_words, words};

verus! {

/// The rule of the scaler that keeps the picture's shape: the picture
/// grows beyond the screen where it is to be cropped, and stays within it
/// where it is to be padded.
pub open spec fn aspect_rule(mode: DisplayMode) -> Seq<char> {
    match mode {
        DisplayMode::Crop => "increase"@,
        DisplayMode::Pad => "decrease"@,
    }
}

/// The filter that brings the scaled picture to the size of the screen.
pub open spec fn fit_filter_spec(mode: DisplayMode, width: nat, height: nat) -> Seq<char> {
    match mode {
        DisplayMode::Pad => "pad="@ + decimal(width) + ":"@ + decimal(height)
            + ":-1:-1:color=black"@,
        DisplayMode::Crop => "crop="@ + decimal(width) + ":"@ + decimal(height),
    }
}

/// The chain of filters: samples twice as wide as high, as the cells of a
/// terminal are about twice as high as wide; the size of the screen, with
/// the picture's shape kept; the fit; and the planar 4:4:4 format.
pub open spec fn scale_filter_spec(mode: DisplayMode, width: nat, height: nat) -> Seq<char> {
    "scale=iw*2:ih,scale="@ + decimal(width) + ":"@ + decimal(height)
        + ":force_original_aspect_ratio="@ + aspect_rule(mode) + ","@ + fit_filter_spec(
        mode,
        width,
        height,
    ) + ",format=yuv444p"@
}

/// The arguments that send the sound as a wave stream to `pipe`, or none
/// where no sound is played.
pub open spec fn audio_arguments_spec(pipe: Option<Seq<char>>) -> Seq<char> {
    match pipe {
        Some(p) => "-map 0:a -async 1 -vsync 1 -acodec pcm_s16le -f wav "@ + p + " -y"@,
        None => Seq::<char>::empty(),
    }
}

/// The argument that keeps the decoder silent, unless it is to be loud.
pub open spec fn log_arguments(loud: bool) -> Seq<char> {
    if loud {
        Seq::<char>::empty()
    } else {
        "-loglevel quiet"@
    }
}

/// The decoder's command line, before it is split into arguments.
pub open spec fn command_line_spec(
    input: Seq<char>,
    audio_pipe: Option<Seq<char>>,
    mode: DisplayMode,
    width: nat,
    height: nat,
    loud: bool,
) -> Seq<char> {
    "-re -i "@ + input + " "@ + audio_arguments_spec(audio_pipe) + " -map 0:v -filter "@
        + scale_filter_spec(mode, width, height) + " -vcodec wrapped_avframe -f yuv4mpegpipe "@
        + log_arguments(loud) + " -"@
}

/// The view of an optional text.
pub open spec fn option_text(s: Option<&str>) -> Option<Seq<char>> {
    match s {
        Some(t) => Some(t@),
        None => None,
    }
}

/// The number of rows of samples that the decoder is asked for, so that
/// the picture fills `rows` terminal rows: twice as many where a cell
/// holds two samples.
pub fn source_height(pixel_style: PixelStyle, rows: u16) -> (height: u32)
    ensures
        height == if pixel_style == PixelStyle::DoublePixel {
            2 * rows
        } else {
            rows as int
        },
        terminal_rows(pixel_style, height as nat) == rows,
{
    match pixel_style {
        PixelStyle::DoublePixel => 2 * (rows as u32),
        _ => rows as u32,
    }
}

/// The filter that brings the scaled picture to the size of the screen.
fn fit_filter(mode: DisplayMode, width: u32, height: u32) -> (filter: String)
    ensures
        filter@ == fit_filter_spec(mode, width as nat, height as nat),
{
    let mut filter = String::new();
    match mode {
        DisplayMode::Pad => {
            filter.append("pad=");
            push_decimal(&mut filter, width);
            filter.append(":");
            push_decimal(&mut filter, height);
            filter.append(":-1:-1:color=black");
        },
        DisplayMode::Crop => {
            filter.append("crop=");
            push_decimal(&mut filter, width);
            filter.append(":");
            push_decimal(&mut filter, height);
        },
    }
    filter
}

/// The chain of filters that scales the picture to a screen of `width`
/// columns and `height` rows of samples.
pub fn scale_filter(mode: DisplayMode, width: u32, height: u32) -> (filter: String)
    ensures
        filter@ == scale_filter_spec(mode, width as nat, height as nat),
{
    let fit = fit_filter(mode, width, height);
    let mut filter = String::new();
    filter.append("scale=iw*2:ih,scale=");
    push_decimal(&mut filter, width);
    filter.append(":");
    push_decimal(&mut filter, height);
    filter.append(":force_original_aspect_ratio=");
    match mode {
        DisplayMode::Crop => filter.append("increase"),
        DisplayMode::Pad => filter.append("decrease"),
    }
    filter.append(",");
    filter.append(fit.as_str());
    filter.append(",format=yuv444p");
    filter
}

/// The decoder's command line for the file `input`.
pub fn command_line(
    input: &str,
    audio_pipe: Option<&str>,
    mode: DisplayMode,
    width: u32,
    height: u32,
    loud: bool,
) -> (line: String)
    ensures
        line@ == command_line_spec(
            input@,
            option_text(audio_pipe),
            mode,
            width as nat,
            height as nat,
            loud,
        ),
{
    let filter = scale_filter(mode, width, height);
    let mut audio = String::new();
    match audio_pipe {
        Some(pipe) => {
            audio.append("-map 0:a -async 1 -vsync 1 -acodec pcm_s16le -f wav ");
            audio.append(pipe);
            audio.append(" -y");
        },
        None => {},
    }
    let mut line = String::new();
    line.append("-re -i ");
    line.append(input);
    line.append(" ");
    line.append(audio.as_str());
    line.append(" -map 0:v -filter ");
    line.append(filter.as_str());
    line.append(" -vcodec wrapped_avframe -f yuv4mpegpipe ");
    if !loud {
        line.append("-loglevel quiet");
    }
    line.append(" -");
    assert(line@ =~= command_line_spec(
        input@,
        option_text(audio_pipe),
        mode,
        width as nat,
        height as nat,
        loud,
    ));
    line
}

/// The arguments of the decoder: the words of its command line.
pub fn decoder_arguments(
    input: &str,
    audio_pipe: Option<&str>,
    mode: DisplayMode,
    width: u32,
    height: u32,
    loud: bool,
) -> (arguments: Vec<String>)
    ensures
        arguments.deep_view() == words(
            command_line_spec(
                input@,
                option_text(audio_pipe),
                mode,
                width as nat,
                height as nat,
                loud,
            ),
        ),
{
    let line = command_line(input, audio_pipe, mode, width, height, loud);
    split_words(line.as_str())
}

} // verus!
