//! Sticker conversion as a state machine.
//!
//! A still sticker (`heic`) converts to `png` with the configured image tool; an
//! animated sticker (`heics`) first tries a six-stage video-tool pipeline that
//! builds a `gif`, then the image tool, then a raw copy. The caller performs each
//! [`Action`] (spawning a tool, touching the scratch directory, copying) and
//! feeds the result back as an [`Event`]; every decision and every argument list
//! is made here.

use vstd::prelude::*;
use crate::texts;
use vstd::string::*;

verus! {

/// Output formats a sticker converts to.
#[derive(Clone, Copy, Debug, PartialEq, Eq, Structural)]
pub enum ImageType {
    Png,
    Gif,
}

impl ImageType {
    pub open spec fn spec_to_str(&self) -> Seq<char> {
        match self {
            ImageType::Png => "png"@,
            ImageType::Gif => "gif"@,
        }
    }

    /// The file extension and format name of this type.
    pub fn to_str(&self) -> (r: &'static str)
        ensures
            r@ == self.spec_to_str(),
    {
        match self {
            ImageType::Png => "png",
            ImageType::Gif => "gif",
        }
    }
}

/// The still-image tool.
#[derive(Clone, Copy, Debug, PartialEq, Eq, Structural)]
pub enum ImageConverter {
    Sips,
    Imagemagick,
}

impl ImageConverter {
    pub open spec fn spec_name(&self) -> Seq<char> {
        match self {
            ImageConverter::Sips => "sips"@,
            ImageConverter::Imagemagick => "magick"@,
        }
    }

    /// The program to run.
    pub fn name(&self) -> (r: &'static str)
        ensures
            r@ == self.spec_name(),
    {
        match self {
            ImageConverter::Sips => "sips",
            ImageConverter::Imagemagick => "magick",
        }
    }
}

/// The video and frame tool.
#[derive(Clone, Copy, Debug, PartialEq, Eq, Structural)]
pub enum VideoConverter {
    Ffmpeg,
}

impl VideoConverter {
    pub open spec fn spec_name(&self) -> Seq<char> {
        "ffmpeg"@
    }

    /// The program to run.
    pub fn name(&self) -> (r: &'static str)
        ensures
            r@ == self.spec_name(),
    {
        "ffmpeg"
    }
}

/// Declared media type of an attachment, with its subtype (`Image("heic")` for
/// `image/heic`); `Other` holds a whole MIME string.
#[derive(Debug)]
pub enum MediaType {
    Image(String),
    Video(String),
    Audio(String),
    Text(String),
    Application(String),
    Other(String),
    Unknown,
}

/// Format a sticker of this media type converts to, if any.
pub open spec fn spec_target(m: MediaType) -> Option<ImageType> {
    match m {
        MediaType::Image(s) => if s@ == "heic"@ || s@ == "HEIC"@ {
            Some(ImageType::Png)
        } else if s@ == "heics"@ || s@ == "HEICS"@ || s@ == "heic-sequence"@ {
            Some(ImageType::Gif)
        } else {
            None
        },
        _ => None,
    }
}

fn same_text(s: &String, lit: &str) -> (r: bool)
    ensures
        r == (s@ == lit@),
{
    let l = String::from_str(lit);
    *s == l
}

/// Decides the output format of a sticker: `heic` stickers become `png`,
/// `heics` stickers become `gif`, anything else is copied as it is.
pub fn target_type(media: &MediaType) -> (r: Option<ImageType>)
    ensures
        r == spec_target(*media),
{
    match media {
        MediaType::Image(s) => {
            if same_text(s, "heic") || same_text(s, "HEIC") {
                Some(ImageType::Png)
            } else if same_text(s, "heics") || same_text(s, "HEICS") || same_text(s, "heic-sequence") {
                Some(ImageType::Gif)
            } else {
                None
            }
        },
        _ => None,
    }
}

/// A program and its arguments.
#[derive(Debug)]
pub struct ToolCommand {
    pub program: String,
    pub args: Vec<String>,
}


impl ToolCommand {
    pub open spec fn spec_program(&self) -> Seq<char> {
        self.program@
    }

    pub open spec fn spec_args(&self) -> Seq<Seq<char>> {
        texts(self.args@)
    }
}

fn text(s: &str) -> (r: String)
    ensures
        r@ == s@,
{
    String::from_str(s)
}

fn joined(a: &String, b: &str) -> (r: String)
    ensures
        r@ == a@ + b@,
{
    let mut r = a.clone();
    r.append(b);
    r
}

/// Arguments of the still-image tool: the highest-resolution image of `from`
/// (image index 0 for `magick`, which otherwise extracts every embedded size)
/// converted into `to` in format `t`.
pub open spec fn still_args(tool: ImageConverter, from: Seq<char>, to: Seq<char>, t: ImageType) -> Seq<Seq<char>> {
    match tool {
        ImageConverter::Sips => seq!["-s"@, "format"@, t.spec_to_str(), from, "-o"@, to],
        ImageConverter::Imagemagick => seq![from + "[0]"@, to],
    }
}

/// Builds the still-image tool's command that converts `from_path` into
/// `to_path` in the given format.
pub fn convert_heic(
    from_path: &String,
    to_path: &String,
    converter: &ImageConverter,
    output_image_type: &ImageType,
) -> (r: ToolCommand)
    ensures
        r.spec_program() == converter.spec_name(),
        r.spec_args() == still_args(*converter, from_path@, to_path@, *output_image_type),
{
    let mut args: Vec<String> = Vec::new();
    match converter {
        ImageConverter::Sips => {
            args.push(text("-s"));
            args.push(text("format"));
            args.push(text(output_image_type.to_str()));
            args.push(from_path.clone());
            args.push(text("-o"));
            args.push(to_path.clone());
        },
        ImageConverter::Imagemagick => {
            args.push(joined(from_path, "[0]"));
            args.push(to_path.clone());
        },
    }
    let r = ToolCommand { program: text(converter.name()), args };
    assert(r.spec_args() =~= still_args(*converter, from_path@, to_path@, *output_image_type));
    r
}

/// Decimal digit `d` as a character.
pub open spec fn digit_char(d: int) -> char {
    "0123456789"@[d]
}

/// `n` in decimal, without leading zeros.
pub open spec fn decimal(n: nat) -> Seq<char>
    decreases n,
{
    if n < 10 {
        seq![digit_char(n as int)]
    } else {
        decimal(n / 10).push(digit_char((n % 10) as int))
    }
}

/// `n` in decimal, zero-padded to at least four digits, as frame files are numbered.
pub open spec fn four_digits(n: nat) -> Seq<char> {
    let d = decimal(n);
    if d.len() < 4 {
        Seq::new((4 - d.len()) as nat, |i: int| '0') + d
    } else {
        d
    }
}

fn digit(d: usize) -> (r: &'static str)
    requires
        d < 10,
    ensures
        r@ == seq![digit_char(d as int)],
{
    proof {
        reveal_strlit("0123456789");
        reveal_strlit("0");
        reveal_strlit("1");
        reveal_strlit("2");
        reveal_strlit("3");
        reveal_strlit("4");
        reveal_strlit("5");
        reveal_strlit("6");
        reveal_strlit("7");
        reveal_strlit("8");
        reveal_strlit("9");
    }
    let r = if d == 0 {
        "0"
    } else if d == 1 {
        "1"
    } else if d == 2 {
        "2"
    } else if d == 3 {
        "3"
    } else if d == 4 {
        "4"
    } else if d == 5 {
        "5"
    } else if d == 6 {
        "6"
    } else if d == 7 {
        "7"
    } else if d == 8 {
        "8"
    } else {
        "9"
    };
    assert(r@ =~= seq![digit_char(d as int)]);
    r
}

fn decimal_text(n: usize) -> (r: String)
    ensures
        r@ == decimal(n as nat),
    decreases n,
{
    if n < 10 {
        text(digit(n))
    } else {
        let mut r = decimal_text(n / 10);
        r.append(digit(n % 10));
        r
    }
}

proof fn lemma_decimal_len(n: nat)
    ensures
        n < 10 ==> decimal(n).len() == 1,
        10 <= n < 100 ==> decimal(n).len() == 2,
        100 <= n < 1000 ==> decimal(n).len() == 3,
        1000 <= n ==> decimal(n).len() >= 4,
    decreases n,
{
    if n >= 10 {
        lemma_decimal_len(n / 10);
    }
}

/// `n` zero-padded to at least four digits, as the frame files are numbered.
pub fn padded(n: usize) -> (r: String)
    ensures
        r@ == four_digits(n as nat),
{
    proof {
        lemma_decimal_len(n as nat);
        reveal_strlit("000");
        reveal_strlit("00");
        reveal_strlit("0");
    }
    let d = decimal_text(n);
    let mut r = if n < 10 {
        text("000")
    } else if n < 100 {
        text("00")
    } else if n < 1000 {
        text("0")
    } else {
        String::new()
    };
    r.append(d.as_str());
    assert(r@ =~= four_digits(n as nat));
    r
}

/// Arguments that demux stream `stream` of `from` into numbered images
/// `<scratch><pattern>`.
pub open spec fn demux_args(from: Seq<char>, stream: Seq<char>, target: Seq<char>) -> Seq<Seq<char>> {
    seq!["-i"@, from, "-map"@, stream, "-y"@, target]
}

pub open spec fn alpha_filter() -> Seq<char> {
    "[1:v]format=gray,geq=lum='p(X,Y)':a='p(X,Y)'[mask];[0:v][mask]alphamerge"@
}

/// Arguments that merge mask `k` into the alpha channel of frame `k`.
pub open spec fn merge_args(scratch: Seq<char>, k: nat) -> Seq<Seq<char>> {
    seq![
        "-i"@,
        scratch + "/frame_"@ + four_digits(k as nat) + ".png"@,
        "-i"@,
        scratch + "/alpha_"@ + four_digits(k as nat) + ".png"@,
        "-filter_complex"@,
        alpha_filter(),
        scratch + "/merged_"@ + four_digits(k as nat) + ".png"@,
    ]
}

/// Arguments that build a palette from the first merged frame, with one entry
/// kept for transparency.
pub open spec fn palette_args(scratch: Seq<char>) -> Seq<Seq<char>> {
    seq![
        "-i"@,
        scratch + "/merged_0001.png"@,
        "-vf"@,
        "palettegen=reserve_transparent=1"@,
        scratch + "/palette.png"@,
    ]
}

/// Arguments that assemble the merged frames and the palette into `to` at ten
/// frames per second, with timestamp offsetting off.
pub open spec fn assemble_args(scratch: Seq<char>, to: Seq<char>) -> Seq<Seq<char>> {
    seq![
        "-i"@,
        scratch + "/merged_%04d.png"@,
        "-i"@,
        scratch + "/palette.png"@,
        "-lavfi"@,
        "fps=10,paletteuse=alpha_threshold=128"@,
        "-gifflags"@,
        "-offsetting"@,
        to,
    ]
}

fn demux_command(tool: &VideoConverter, from: &String, stream: &str, target: String) -> (r: ToolCommand)
    ensures
        r.spec_program() == tool.spec_name(),
        r.spec_args() == demux_args(from@, stream@, target@),
{
    let mut args: Vec<String> = Vec::new();
    args.push(text("-i"));
    args.push(from.clone());
    args.push(text("-map"));
    args.push(text(stream));
    args.push(text("-y"));
    args.push(target);
    let r = ToolCommand { program: text(tool.name()), args };
    assert(r.spec_args() =~= demux_args(from@, stream@, target@));
    r
}

fn numbered(scratch: &String, prefix: &str, k: usize) -> (r: String)
    ensures
        r@ == scratch@ + prefix@ + four_digits(k as nat) + ".png"@,
{
    let mut r = joined(scratch, prefix);
    let digits = padded(k);
    r.append(digits.as_str());
    r.append(".png");
    r
}

fn merge_command(tool: &VideoConverter, scratch: &String, k: usize) -> (r: ToolCommand)
    ensures
        r.spec_program() == tool.spec_name(),
        r.spec_args() == merge_args(scratch@, k as nat),
{
    let mut args: Vec<String> = Vec::new();
    args.push(text("-i"));
    args.push(numbered(scratch, "/frame_", k));
    args.push(text("-i"));
    args.push(numbered(scratch, "/alpha_", k));
    args.push(text("-filter_complex"));
    args.push(text("[1:v]format=gray,geq=lum='p(X,Y)':a='p(X,Y)'[mask];[0:v][mask]alphamerge"));
    args.push(numbered(scratch, "/merged_", k));
    let r = ToolCommand { program: text(tool.name()), args };
    assert(r.spec_args() =~= merge_args(scratch@, k as nat));
    r
}

fn palette_command(tool: &VideoConverter, scratch: &String) -> (r: ToolCommand)
    ensures
        r.spec_program() == tool.spec_name(),
        r.spec_args() == palette_args(scratch@),
{
    let mut args: Vec<String> = Vec::new();
    args.push(text("-i"));
    args.push(joined(scratch, "/merged_0001.png"));
    args.push(text("-vf"));
    args.push(text("palettegen=reserve_transparent=1"));
    args.push(joined(scratch, "/palette.png"));
    let r = ToolCommand { program: text(tool.name()), args };
    assert(r.spec_args() =~= palette_args(scratch@));
    r
}

fn assemble_command(tool: &VideoConverter, scratch: &String, to: &String) -> (r: ToolCommand)
    ensures
        r.spec_program() == tool.spec_name(),
        r.spec_args() == assemble_args(scratch@, to@),
{
    let mut args: Vec<String> = Vec::new();
    args.push(text("-i"));
    args.push(joined(scratch, "/merged_%04d.png"));
    args.push(text("-i"));
    args.push(joined(scratch, "/palette.png"));
    args.push(text("-lavfi"));
    args.push(text("fps=10,paletteuse=alpha_threshold=128"));
    args.push(text("-gifflags"));
    args.push(text("-offsetting"));
    args.push(to.clone());
    let r = ToolCommand { program: text(tool.name()), args };
    assert(r.spec_args() =~= assemble_args(scratch@, to@));
    r
}

/// Result of a conversion: converted into a format, or copied unchanged.
#[derive(Clone, Copy, Debug, PartialEq, Eq, Structural)]
pub enum Outcome {
    Converted(ImageType),
    PassthroughCopy,
}

/// Where a conversion stands. The animated stages run in the order listed;
/// `Merge(k, n)` merges mask `k` of `n`; `Cleanup(ok)` removes the scratch
/// directory after an animated attempt that succeeded or not; `Fallback(warn)`
/// copies the source, after a warning when a conversion was owed but failed.
#[derive(Clone, Copy, Debug, PartialEq, Eq, Structural)]
pub enum Stage {
    CreateScratch,
    DemuxFrames,
    DemuxMasks,
    CountFrames,
    Merge(usize, usize),
    Palette,
    Assemble,
    Cleanup(bool),
    Standard(ImageType),
    Fallback(bool),
    Done(Outcome),
}

/// What the caller observed after performing an action.
#[derive(Clone, Copy, Debug, PartialEq, Eq, Structural)]
pub enum Event {
    Succeeded,
    Failed,
    /// Number of entries in the scratch directory: a frame and a mask per index.
    Entries(usize),
}

/// What the caller must do next.
#[derive(Debug)]
pub enum Action {
    CreateScratch,
    Run(ToolCommand),
    CountScratchEntries,
    RemoveScratch,
    /// Copy the source bytes to the destination, warning first if `true`.
    CopyRaw(bool),
    Finish(Outcome),
}

/// Stages of the animated attempt that run after the scratch directory exists.
pub open spec fn in_animated(s: Stage) -> bool {
    match s {
        Stage::DemuxFrames | Stage::DemuxMasks | Stage::CountFrames | Stage::Merge(_, _)
        | Stage::Palette | Stage::Assemble => true,
        _ => false,
    }
}

/// The stage a conversion starts in.
pub open spec fn first_stage(target: Option<ImageType>, has_video: bool, has_paths: bool) -> Stage {
    match target {
        None => Stage::Fallback(false),
        Some(t) => if !has_paths {
            Stage::Fallback(true)
        } else if t == ImageType::Gif && has_video {
            Stage::CreateScratch
        } else {
            Stage::Standard(t)
        },
    }
}

/// The stage after `s` once the caller reports `e`. Any failure inside the
/// animated attempt goes to cleanup and then to the still-image tool; a failure
/// of that tool goes to the raw copy.
pub open spec fn next_stage(s: Stage, e: Event) -> Stage {
    let ok = e == Event::Succeeded;
    match s {
        Stage::CreateScratch => if ok { Stage::DemuxFrames } else { Stage::Standard(ImageType::Gif) },
        Stage::DemuxFrames => if ok { Stage::DemuxMasks } else { Stage::Cleanup(false) },
        Stage::DemuxMasks => if ok { Stage::CountFrames } else { Stage::Cleanup(false) },
        Stage::CountFrames => match e {
            Event::Entries(n) => if 1 <= n / 2 {
                Stage::Merge(1, n / 2)
            } else {
                Stage::Cleanup(false)
            },
            _ => Stage::Cleanup(false),
        },
        Stage::Merge(k, n) => if !ok {
            Stage::Cleanup(false)
        } else if k < n {
            Stage::Merge((k + 1) as usize, n)
        } else {
            Stage::Palette
        },
        Stage::Palette => if ok { Stage::Assemble } else { Stage::Cleanup(false) },
        Stage::Assemble => if ok { Stage::Cleanup(true) } else { Stage::Cleanup(false) },
        Stage::Cleanup(done) => if done && ok {
            Stage::Done(Outcome::Converted(ImageType::Gif))
        } else {
            Stage::Standard(ImageType::Gif)
        },
        Stage::Standard(t) => if ok { Stage::Done(Outcome::Converted(t)) } else { Stage::Fallback(true) },
        Stage::Fallback(_) => Stage::Done(Outcome::PassthroughCopy),
        Stage::Done(o) => Stage::Done(o),
    }
}

/// Stages that are reachable: a merge index lies within the frame count.
pub open spec fn stage_ok(s: Stage) -> bool {
    match s {
        Stage::Merge(k, n) => 1 <= k <= n,
        _ => true,
    }
}

/// One sticker conversion in progress.
pub struct Conversion {
    paths: Option<(String, String)>,
    scratch: String,
    image_tool: ImageConverter,
    video_tool: Option<VideoConverter>,
    stage: Stage,
}

impl Conversion {
    pub closed spec fn spec_stage(&self) -> Stage {
        self.stage
    }

    pub closed spec fn spec_paths(&self) -> Option<(Seq<char>, Seq<char>)> {
        match self.paths {
            Some(p) => Some((p.0@, p.1@)),
            None => None,
        }
    }

    pub closed spec fn spec_scratch(&self) -> Seq<char> {
        self.scratch@
    }

    pub closed spec fn spec_image_tool(&self) -> ImageConverter {
        self.image_tool
    }

    pub closed spec fn spec_video_tool(&self) -> Option<VideoConverter> {
        self.video_tool
    }

    /// The stage is reachable; every stage before the raw copy has the paths,
    /// and those of the animated attempt have the video tool.
    pub closed spec fn wf(&self) -> bool {
        &&& stage_ok(self.stage)
        &&& !(self.stage is Fallback || self.stage is Done) ==> self.paths is Some
        &&& (in_animated(self.stage) || self.stage is CreateScratch) ==> self.video_tool is Some
    }

    /// Starts converting a sticker of type `media`. `paths` holds the source
    /// and destination as text, or `None` when either is not representable;
    /// `scratch` is the directory for intermediate frames.
    pub fn new(
        media: &MediaType,
        paths: Option<(String, String)>,
        scratch: String,
        image_tool: ImageConverter,
        video_tool: Option<VideoConverter>,
    ) -> (r: Self)
        ensures
            r.wf(),
            r.spec_stage() == first_stage(spec_target(*media), video_tool is Some, paths is Some),
            r.spec_paths() == (match paths {
                Some(p) => Some((p.0@, p.1@)),
                None => None,
            }),
            r.spec_scratch() == scratch@,
            r.spec_image_tool() == image_tool,
            r.spec_video_tool() == video_tool,
    {
        let target = target_type(media);
        let stage = match target {
            None => Stage::Fallback(false),
            Some(t) => {
                if paths.is_none() {
                    Stage::Fallback(true)
                } else if t == ImageType::Gif && video_tool.is_some() {
                    Stage::CreateScratch
                } else {
                    Stage::Standard(t)
                }
            },
        };
        Conversion { paths, scratch, image_tool, video_tool, stage }
    }

    /// The current stage.
    pub fn stage(&self) -> (r: Stage)
        ensures
            r == self.spec_stage(),
    {
        self.stage
    }

    /// Format the destination's extension must name, once the stage is known:
    /// that of the conversion under way or made, none for a raw copy.
    pub fn extension(&self) -> (r: Option<ImageType>)
        ensures
            r == spec_extension(self.spec_stage()),
    {
        match self.stage {
            Stage::Standard(t) => Some(t),
            Stage::Done(Outcome::Converted(t)) => Some(t),
            Stage::Fallback(_) | Stage::Done(Outcome::PassthroughCopy) => None,
            _ => Some(ImageType::Gif),
        }
    }

    /// Moves on after the caller reports the result of the last action.
    pub fn advance(&mut self, e: Event)
        requires
            old(self).wf(),
        ensures
            final(self).wf(),
            final(self).spec_stage() == next_stage(old(self).spec_stage(), e),
            final(self).spec_paths() == old(self).spec_paths(),
            final(self).spec_scratch() == old(self).spec_scratch(),
            final(self).spec_image_tool() == old(self).spec_image_tool(),
            final(self).spec_video_tool() == old(self).spec_video_tool(),
    {
        let ok = e == Event::Succeeded;
        let next = match self.stage {
            Stage::CreateScratch => if ok { Stage::DemuxFrames } else { Stage::Standard(ImageType::Gif) },
            Stage::DemuxFrames => if ok { Stage::DemuxMasks } else { Stage::Cleanup(false) },
            Stage::DemuxMasks => if ok { Stage::CountFrames } else { Stage::Cleanup(false) },
            Stage::CountFrames => match e {
                Event::Entries(n) => {
                    let frames = n / 2;
                    if 1 <= frames {
                        Stage::Merge(1, frames)
                    } else {
                        Stage::Cleanup(false)
                    }
                },
                _ => Stage::Cleanup(false),
            },
            Stage::Merge(k, n) => if !ok {
                Stage::Cleanup(false)
            } else if k < n {
                Stage::Merge(k + 1, n)
            } else {
                Stage::Palette
            },
            Stage::Palette => if ok { Stage::Assemble } else { Stage::Cleanup(false) },
            Stage::Assemble => if ok { Stage::Cleanup(true) } else { Stage::Cleanup(false) },
            Stage::Cleanup(done) => if done && ok {
                Stage::Done(Outcome::Converted(ImageType::Gif))
            } else {
                Stage::Standard(ImageType::Gif)
            },
            Stage::Standard(t) => if ok { Stage::Done(Outcome::Converted(t)) } else { Stage::Fallback(true) },
            Stage::Fallback(_) => Stage::Done(Outcome::PassthroughCopy),
            Stage::Done(o) => Stage::Done(o),
        };
        self.stage = next;
    }

    /// What the caller must do in the current stage.
    pub fn action(&self) -> (r: Action)
        requires
            self.wf(),
        ensures
            action_fits(*self, r),
    {
        match self.stage {
            Stage::CreateScratch => Action::CreateScratch,
            Stage::CountFrames => Action::CountScratchEntries,
            Stage::Cleanup(_) => Action::RemoveScratch,
            Stage::Fallback(warn) => Action::CopyRaw(warn),
            Stage::Done(o) => Action::Finish(o),
            Stage::Standard(t) => {
                let (from, to) = self.paths.as_ref().unwrap();
                Action::Run(convert_heic(from, to, &self.image_tool, &t))
            },
            Stage::DemuxFrames => {
                let (from, _) = self.paths.as_ref().unwrap();
                let tool = self.video_tool.as_ref().unwrap();
                Action::Run(demux_command(tool, from, "0:2", joined(&self.scratch, "/frame_%04d.png")))
            },
            Stage::DemuxMasks => {
                let (from, _) = self.paths.as_ref().unwrap();
                let tool = self.video_tool.as_ref().unwrap();
                Action::Run(demux_command(tool, from, "0:3", joined(&self.scratch, "/alpha_%04d.png")))
            },
            Stage::Merge(k, _) => {
                let tool = self.video_tool.as_ref().unwrap();
                Action::Run(merge_command(tool, &self.scratch, k))
            },
            Stage::Palette => {
                let tool = self.video_tool.as_ref().unwrap();
                Action::Run(palette_command(tool, &self.scratch))
            },
            Stage::Assemble => {
                let (_, to) = self.paths.as_ref().unwrap();
                let tool = self.video_tool.as_ref().unwrap();
                Action::Run(assemble_command(tool, &self.scratch, to))
            },
        }
    }
}

/// Format the destination's extension names in stage `s`.
pub open spec fn spec_extension(s: Stage) -> Option<ImageType> {
    match s {
        Stage::Standard(t) => Some(t),
        Stage::Done(Outcome::Converted(t)) => Some(t),
        Stage::Fallback(_) | Stage::Done(Outcome::PassthroughCopy) => None,
        _ => Some(ImageType::Gif),
    }
}

/// The command `r` runs `program` with `args`.
pub open spec fn runs(r: Action, program: Seq<char>, args: Seq<Seq<char>>) -> bool {
    match r {
        Action::Run(c) => c.spec_program() == program && c.spec_args() == args,
        _ => false,
    }
}

/// `r` is what conversion `c` asks of the caller in its current stage.
pub open spec fn action_fits(c: Conversion, r: Action) -> bool {
    let from = c.spec_paths().unwrap().0;
    let to = c.spec_paths().unwrap().1;
    let tmp = c.spec_scratch();
    let video = c.spec_video_tool().unwrap().spec_name();
    match c.spec_stage() {
        Stage::CreateScratch => r is CreateScratch,
        Stage::CountFrames => r is CountScratchEntries,
        Stage::Cleanup(_) => r is RemoveScratch,
        Stage::Fallback(warn) => r == Action::CopyRaw(warn),
        Stage::Done(o) => r == Action::Finish(o),
        Stage::Standard(t) => runs(r, c.spec_image_tool().spec_name(), still_args(c.spec_image_tool(), from, to, t)),
        Stage::DemuxFrames => runs(r, video, demux_args(from, "0:2"@, tmp + "/frame_%04d.png"@)),
        Stage::DemuxMasks => runs(r, video, demux_args(from, "0:3"@, tmp + "/alpha_%04d.png"@)),
        Stage::Merge(k, _) => runs(r, video, merge_args(tmp, k as nat)),
        Stage::Palette => runs(r, video, palette_args(tmp)),
        Stage::Assemble => runs(r, video, assemble_args(tmp, to)),
    }
}

/// The stage reached from `s` after the caller reports `evs` in order.
pub open spec fn run(s: Stage, evs: Seq<Event>) -> Stage
    decreases evs.len(),
{
    if evs.len() == 0 {
        s
    } else {
        run(next_stage(s, evs[0]), evs.drop_first())
    }
}

/// A still sticker with representable paths goes straight to the still-image
/// tool with a `png` destination, and ends converted to `png` when the tool
/// succeeds.
pub proof fn lemma_still_sticker_converts(media: MediaType, has_video: bool)
    requires
        spec_target(media) == Some(ImageType::Png),
    ensures
        first_stage(spec_target(media), has_video, true) == Stage::Standard(ImageType::Png),
        spec_extension(Stage::Standard(ImageType::Png)) == Some(ImageType::Png),
        next_stage(Stage::Standard(ImageType::Png), Event::Succeeded) == Stage::Done(
            Outcome::Converted(ImageType::Png),
        ),
        spec_extension(Stage::Done(Outcome::Converted(ImageType::Png))) == Some(ImageType::Png),
{
}

/// A type that is no sticker is copied unchanged, with its extension kept,
/// whatever the caller reports.
pub proof fn lemma_other_type_copies(media: MediaType, has_video: bool, has_paths: bool, e: Event)
    requires
        spec_target(media) is None,
    ensures
        first_stage(spec_target(media), has_video, has_paths) == Stage::Fallback(false),
        spec_extension(Stage::Fallback(false)) is None,
        next_stage(Stage::Fallback(false), e) == Stage::Done(Outcome::PassthroughCopy),
{
}

/// When the still-image tool fails, the source is copied unchanged after a
/// warning, and the outcome is a raw copy.
pub proof fn lemma_still_failure_copies(t: ImageType, e: Event, then: Event)
    requires
        e != Event::Succeeded,
    ensures
        next_stage(Stage::Standard(t), e) == Stage::Fallback(true),
        spec_extension(Stage::Fallback(true)) is None,
        next_stage(Stage::Fallback(true), then) == Stage::Done(Outcome::PassthroughCopy),
{
}

/// A failure at any stage of the animated attempt abandons it: the scratch
/// directory is removed (when it was made) and the still-image tool is tried.
pub proof fn lemma_animated_failure_falls_back(s: Stage, e: Event, then: Event)
    requires
        in_animated(s) || s is CreateScratch,
        e != Event::Succeeded,
        !(e is Entries),
    ensures
        in_animated(s) ==> next_stage(s, e) == Stage::Cleanup(false),
        s is CreateScratch ==> next_stage(s, e) == Stage::Standard(ImageType::Gif),
        next_stage(Stage::Cleanup(false), then) == Stage::Standard(ImageType::Gif),
{
}

/// The animated attempt yields its `gif` only through every stage in turn:
/// each stage is entered only after the one before it succeeded, and the
/// destination is written only by the last tool run, which precedes cleanup.
pub proof fn lemma_animated_needs_every_stage(s: Stage, e: Event)
    requires
        stage_ok(s),
    ensures
        next_stage(s, e) == Stage::Done(Outcome::Converted(ImageType::Gif)) ==> (s == Stage::Cleanup(true)
            && e == Event::Succeeded) || (s == Stage::Standard(ImageType::Gif) && e == Event::Succeeded)
            || s == Stage::Done(Outcome::Converted(ImageType::Gif)),
        next_stage(s, e) == Stage::Cleanup(true) ==> s == Stage::Assemble && e == Event::Succeeded,
        next_stage(s, e) == Stage::Assemble ==> s == Stage::Palette && e == Event::Succeeded,
        next_stage(s, e) == Stage::Palette ==> (s matches Stage::Merge(k, n) && k == n) && e
            == Event::Succeeded,
        next_stage(s, e) matches Stage::Merge(k, n) ==> (k > 1 ==> s == Stage::Merge(
            (k - 1) as usize,
            n,
        ) && e == Event::Succeeded) && (k == 1 ==> s == Stage::CountFrames),
        next_stage(s, e) == Stage::CountFrames ==> s == Stage::DemuxMasks && e == Event::Succeeded,
        next_stage(s, e) == Stage::DemuxMasks ==> s == Stage::DemuxFrames && e == Event::Succeeded,
        next_stage(s, e) == Stage::DemuxFrames ==> s == Stage::CreateScratch && e == Event::Succeeded,
{
}

/// A conversion's course depends on nothing but the sticker's type, the tool
/// configuration, the paths and what the tools report: two conversions that
/// agree on these end in the same stage.
pub proof fn lemma_conversion_repeats(
    m1: MediaType,
    m2: MediaType,
    has_video: bool,
    has_paths: bool,
    evs: Seq<Event>,
)
    requires
        spec_target(m1) == spec_target(m2),
    ensures
        run(first_stage(spec_target(m1), has_video, has_paths), evs) == run(
            first_stage(spec_target(m2), has_video, has_paths),
            evs,
        ),
{
}

proof fn lemma_run_concat(s: Stage, a: Seq<Event>, b: Seq<Event>)
    ensures
        run(s, a + b) == run(run(s, a), b),
    decreases a.len(),
{
    if a.len() > 0 {
        assert((a + b).drop_first() =~= a.drop_first() + b);
        assert((a + b)[0] == a[0]);
        lemma_run_concat(next_stage(s, a[0]), a.drop_first(), b);
    } else {
        assert(a + b =~= b);
    }
}

/// `n` reports of success.
pub open spec fn successes(n: nat) -> Seq<Event> {
    Seq::new(n, |i: int| Event::Succeeded)
}

proof fn lemma_merges_succeed(k: usize, n: usize)
    requires
        1 <= k <= n,
    ensures
        run(Stage::Merge(k, n), successes((n - k + 1) as nat)) == Stage::Palette,
    decreases n - k,
{
    let evs = successes((n - k + 1) as nat);
    assert(evs[0] == Event::Succeeded);
    reveal_with_fuel(run, 2);
    if k < n {
        assert(evs.drop_first() =~= successes((n - (k + 1) + 1) as nat));
        lemma_merges_succeed((k + 1) as usize, n);
    } else {
        assert(evs.drop_first() =~= Seq::<Event>::empty());
    }
}

/// The events of an animated conversion in which every stage succeeds: scratch
/// creation, both demuxes, a count of `2 * n` entries, `n` merges, the palette,
/// the assembly and the removal of the scratch directory.
pub open spec fn all_succeed(n: nat) -> Seq<Event> {
    seq![Event::Succeeded, Event::Succeeded, Event::Succeeded, Event::Entries((2 * n) as usize)] + successes(n)
        + successes(3)
}

/// When every stage of the animated attempt succeeds, whatever the frame count,
/// the conversion ends converted to `gif`, and its last step removes the scratch
/// directory.
pub proof fn lemma_animated_success(n: usize)
    requires
        n >= 1,
        2 * n <= usize::MAX,
    ensures
        run(Stage::CreateScratch, all_succeed(n as nat).drop_last()) == Stage::Cleanup(true),
        run(Stage::CreateScratch, all_succeed(n as nat)) == Stage::Done(Outcome::Converted(ImageType::Gif)),
{
    let head = seq![Event::Succeeded, Event::Succeeded, Event::Succeeded, Event::Entries((2 * n) as usize)];
    let merges = successes(n as nat);
    let tail = successes(3);
    let all = all_succeed(n as nat);
    assert(all =~= head + (merges + tail));
    lemma_run_concat(Stage::CreateScratch, head, merges + tail);
    reveal_with_fuel(run, 5);
    assert(run(Stage::CreateScratch, head) == Stage::Merge(1, n));
    lemma_run_concat(Stage::Merge(1, n), merges, tail);
    lemma_merges_succeed(1, n);
    assert(run(Stage::Palette, tail) == Stage::Done(Outcome::Converted(ImageType::Gif)));
    let short = all.drop_last();
    let tail2 = successes(2);
    assert(short =~= head + (merges + tail2));
    lemma_run_concat(Stage::CreateScratch, head, merges + tail2);
    lemma_run_concat(Stage::Merge(1, n), merges, tail2);
    assert(run(Stage::Palette, tail2) == Stage::Cleanup(true));
}

} // verus!
