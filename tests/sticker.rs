use imessage_export_core::sticker::{
    convert_heic, padded, target_type, Action, Conversion, Event, ImageConverter, ImageType,
    MediaType, Outcome, Stage, VideoConverter,
};

fn s(x: &str) -> String {
    x.to_string()
}

fn paths() -> Option<(String, String)> {
    Some((s("/in/a.heics"), s("/out/a.gif")))
}

fn run_args(a: &Action) -> (String, Vec<String>) {
    match a {
        Action::Run(c) => (c.program.clone(), c.args.clone()),
        other => panic!("expected a tool run, got {other:?}"),
    }
}

#[test]
fn sticker_types_pick_targets() {
    assert_eq!(target_type(&MediaType::Image(s("heic"))), Some(ImageType::Png));
    assert_eq!(target_type(&MediaType::Image(s("HEIC"))), Some(ImageType::Png));
    assert_eq!(target_type(&MediaType::Image(s("heics"))), Some(ImageType::Gif));
    assert_eq!(target_type(&MediaType::Image(s("HEICS"))), Some(ImageType::Gif));
    assert_eq!(target_type(&MediaType::Image(s("heic-sequence"))), Some(ImageType::Gif));
    assert_eq!(target_type(&MediaType::Image(s("png"))), None);
    assert_eq!(target_type(&MediaType::Video(s("heic"))), None);
    assert_eq!(target_type(&MediaType::Unknown), None);
}

#[test]
fn still_sticker_converts_to_png() {
    let mut c = Conversion::new(
        &MediaType::Image(s("heic")),
        Some((s("/in/a.heic"), s("/out/a.png"))),
        s("/tmp/x"),
        ImageConverter::Sips,
        Some(VideoConverter::Ffmpeg),
    );
    assert_eq!(c.stage(), Stage::Standard(ImageType::Png));
    assert_eq!(c.extension(), Some(ImageType::Png));
    let (program, args) = run_args(&c.action());
    assert_eq!(program, "sips");
    assert_eq!(args, vec!["-s", "format", "png", "/in/a.heic", "-o", "/out/a.png"]);
    c.advance(Event::Succeeded);
    assert_eq!(c.stage(), Stage::Done(Outcome::Converted(ImageType::Png)));
    assert!(matches!(c.action(), Action::Finish(Outcome::Converted(ImageType::Png))));
}

#[test]
fn other_type_is_copied() {
    let mut c = Conversion::new(&MediaType::Image(s("jpeg")), paths(), s("/tmp/x"), ImageConverter::Sips, None);
    assert_eq!(c.stage(), Stage::Fallback(false));
    assert_eq!(c.extension(), None);
    assert!(matches!(c.action(), Action::CopyRaw(false)));
    c.advance(Event::Succeeded);
    assert_eq!(c.stage(), Stage::Done(Outcome::PassthroughCopy));
}

#[test]
fn still_tool_failure_copies_with_warning() {
    let mut c = Conversion::new(
        &MediaType::Image(s("HEIC")),
        Some((s("/in/a.heic"), s("/out/a.png"))),
        s("/tmp/x"),
        ImageConverter::Imagemagick,
        None,
    );
    let (program, args) = run_args(&c.action());
    assert_eq!(program, "magick");
    assert_eq!(args, vec!["/in/a.heic[0]", "/out/a.png"]);
    c.advance(Event::Failed);
    assert_eq!(c.stage(), Stage::Fallback(true));
    assert_eq!(c.extension(), None);
    assert!(matches!(c.action(), Action::CopyRaw(true)));
    c.advance(Event::Succeeded);
    assert_eq!(c.stage(), Stage::Done(Outcome::PassthroughCopy));
}

#[test]
fn unrepresentable_paths_copy() {
    let c = Conversion::new(&MediaType::Image(s("heics")), None, s("/tmp/x"), ImageConverter::Sips, Some(VideoConverter::Ffmpeg));
    assert_eq!(c.stage(), Stage::Fallback(true));
}

#[test]
fn animated_sticker_full_pipeline() {
    let mut c = Conversion::new(
        &MediaType::Image(s("heics")),
        paths(),
        s("/tmp/x"),
        ImageConverter::Sips,
        Some(VideoConverter::Ffmpeg),
    );
    assert!(matches!(c.action(), Action::CreateScratch));
    c.advance(Event::Succeeded);
    assert_eq!(
        run_args(&c.action()),
        (s("ffmpeg"), vec![s("-i"), s("/in/a.heics"), s("-map"), s("0:2"), s("-y"), s("/tmp/x/frame_%04d.png")])
    );
    c.advance(Event::Succeeded);
    assert_eq!(
        run_args(&c.action()).1,
        vec!["-i", "/in/a.heics", "-map", "0:3", "-y", "/tmp/x/alpha_%04d.png"]
    );
    c.advance(Event::Succeeded);
    assert!(matches!(c.action(), Action::CountScratchEntries));
    c.advance(Event::Entries(4));
    assert_eq!(c.stage(), Stage::Merge(1, 2));
    let merge = "[1:v]format=gray,geq=lum='p(X,Y)':a='p(X,Y)'[mask];[0:v][mask]alphamerge";
    assert_eq!(
        run_args(&c.action()).1,
        vec!["-i", "/tmp/x/frame_0001.png", "-i", "/tmp/x/alpha_0001.png", "-filter_complex", merge, "/tmp/x/merged_0001.png"]
    );
    c.advance(Event::Succeeded);
    assert_eq!(run_args(&c.action()).1[1], "/tmp/x/frame_0002.png");
    c.advance(Event::Succeeded);
    assert_eq!(c.stage(), Stage::Palette);
    assert_eq!(
        run_args(&c.action()).1,
        vec!["-i", "/tmp/x/merged_0001.png", "-vf", "palettegen=reserve_transparent=1", "/tmp/x/palette.png"]
    );
    c.advance(Event::Succeeded);
    assert_eq!(
        run_args(&c.action()).1,
        vec![
            "-i",
            "/tmp/x/merged_%04d.png",
            "-i",
            "/tmp/x/palette.png",
            "-lavfi",
            "fps=10,paletteuse=alpha_threshold=128",
            "-gifflags",
            "-offsetting",
            "/out/a.gif"
        ]
    );
    c.advance(Event::Succeeded);
    assert_eq!(c.stage(), Stage::Cleanup(true));
    assert!(matches!(c.action(), Action::RemoveScratch));
    c.advance(Event::Succeeded);
    assert_eq!(c.stage(), Stage::Done(Outcome::Converted(ImageType::Gif)));
    assert_eq!(c.extension(), Some(ImageType::Gif));
}

#[test]
fn animated_stage_failure_falls_back_to_still_tool() {
    for failing in 0..6 {
        let mut c = Conversion::new(
            &MediaType::Image(s("heics")),
            paths(),
            s("/tmp/x"),
            ImageConverter::Sips,
            Some(VideoConverter::Ffmpeg),
        );
        c.advance(Event::Succeeded);
        let events = [Event::Succeeded, Event::Succeeded, Event::Entries(2), Event::Succeeded, Event::Succeeded, Event::Succeeded];
        for (k, e) in events.iter().enumerate() {
            if k == failing {
                c.advance(Event::Failed);
                break;
            }
            c.advance(*e);
        }
        assert_eq!(c.stage(), Stage::Cleanup(false));
        assert!(matches!(c.action(), Action::RemoveScratch));
        c.advance(Event::Succeeded);
        assert_eq!(c.stage(), Stage::Standard(ImageType::Gif));
        let (program, args) = run_args(&c.action());
        assert_eq!(program, "sips");
        assert_eq!(args[2], "gif");
    }
}

#[test]
fn scratch_creation_failure_goes_to_still_tool() {
    let mut c = Conversion::new(&MediaType::Image(s("heics")), paths(), s("/tmp/x"), ImageConverter::Sips, Some(VideoConverter::Ffmpeg));
    c.advance(Event::Failed);
    assert_eq!(c.stage(), Stage::Standard(ImageType::Gif));
}

#[test]
fn empty_scratch_abandons_animation() {
    let mut c = Conversion::new(&MediaType::Image(s("heics")), paths(), s("/tmp/x"), ImageConverter::Sips, Some(VideoConverter::Ffmpeg));
    c.advance(Event::Succeeded);
    c.advance(Event::Succeeded);
    c.advance(Event::Succeeded);
    c.advance(Event::Entries(1));
    assert_eq!(c.stage(), Stage::Cleanup(false));
}

#[test]
fn animated_without_video_tool_uses_still_tool() {
    let c = Conversion::new(&MediaType::Image(s("heics")), paths(), s("/tmp/x"), ImageConverter::Imagemagick, None);
    assert_eq!(c.stage(), Stage::Standard(ImageType::Gif));
    assert_eq!(run_args(&c.action()).1, vec!["/in/a.heics[0]", "/out/a.gif"]);
}

#[test]
fn same_inputs_same_course() {
    let events = [Event::Succeeded, Event::Succeeded, Event::Failed, Event::Succeeded, Event::Failed, Event::Succeeded];
    let mut stages = Vec::new();
    for _ in 0..2 {
        let mut c = Conversion::new(&MediaType::Image(s("heics")), paths(), s("/tmp/x"), ImageConverter::Sips, Some(VideoConverter::Ffmpeg));
        for e in events {
            c.advance(e);
        }
        stages.push(c.stage());
    }
    assert_eq!(stages[0], stages[1]);
    assert_eq!(stages[0], Stage::Done(Outcome::PassthroughCopy));
}

#[test]
fn still_command_builder() {
    let cmd = convert_heic(&s("a.heic"), &s("b.png"), &ImageConverter::Sips, &ImageType::Png);
    assert_eq!(cmd.program, "sips");
    assert_eq!(cmd.args, vec!["-s", "format", "png", "a.heic", "-o", "b.png"]);
    let cmd = convert_heic(&s("a.heic"), &s("b.gif"), &ImageConverter::Imagemagick, &ImageType::Gif);
    assert_eq!(cmd.program, "magick");
    assert_eq!(cmd.args, vec!["a.heic[0]", "b.gif"]);
}

#[test]
fn frame_numbers_are_four_digits() {
    assert_eq!(padded(0), "0000");
    assert_eq!(padded(7), "0007");
    assert_eq!(padded(42), "0042");
    assert_eq!(padded(9999), "9999");
    assert_eq!(padded(10000), "10000");
    assert_eq!(padded(123456), "123456");
}

#[test]
fn many_frames_are_all_merged() {
    let mut c = Conversion::new(&MediaType::Image(s("heics")), paths(), s("/tmp/x"), ImageConverter::Sips, Some(VideoConverter::Ffmpeg));
    c.advance(Event::Succeeded);
    c.advance(Event::Succeeded);
    c.advance(Event::Succeeded);
    c.advance(Event::Entries(20000));
    assert_eq!(c.stage(), Stage::Merge(1, 10000));
    for _ in 1..10000 {
        c.advance(Event::Succeeded);
    }
    assert_eq!(c.stage(), Stage::Merge(10000, 10000));
    assert_eq!(run_args(&c.action()).1[1], "/tmp/x/frame_10000.png");
    c.advance(Event::Succeeded);
    assert_eq!(c.stage(), Stage::Palette);
}
