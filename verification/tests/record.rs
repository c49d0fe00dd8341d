use teemlab::brain::{families, FAMILY_COUNT};
use teemlab::record::{frame_size, parse_brain_filter, AutoStop, RecordArgError, RecordSettings};

fn fam(name: &str) -> usize {
    families().iter().position(|f| f.eq_ignore_ascii_case(name)).unwrap()
}

fn args(v: &[&str]) -> Vec<String> {
    v.iter().map(|s| s.to_string()).collect()
}

#[test]
fn stop_when_names_a_single_family() {
    let mask = parse_brain_filter("mlp").unwrap();
    assert!(mask[fam("MLP")]);
    assert_eq!(mask.iter().filter(|&&b| b).count(), 1);
}

#[test]
fn stop_when_is_case_insensitive_and_lists() {
    let mask = parse_brain_filter("Hunter,mlp").unwrap();
    assert!(mask[fam("Hunter")] && mask[fam("MLP")]);
    assert_eq!(mask.iter().filter(|&&b| b).count(), 2);
}

#[test]
fn stop_when_bang_inverts() {
    let mask = parse_brain_filter("!sessile").unwrap();
    assert!(!mask[fam("Sessile")]);
    assert_eq!(mask.iter().filter(|&&b| b).count(), FAMILY_COUNT - 1);
}

#[test]
fn stop_when_rejects_unknown_or_empty() {
    assert!(parse_brain_filter("wanderer").is_err());
    assert!(parse_brain_filter("").is_err());
    assert!(parse_brain_filter("!").is_err());
}

#[test]
fn stop_when_error_messages() {
    assert_eq!(
        parse_brain_filter("hunter, wanderer ,x").unwrap_err(),
        "unknown brain \"wanderer\" (wander|hunter|grazer|sessile|mlp)"
    );
    assert_eq!(parse_brain_filter(" , ").unwrap_err(), "no brain named");
    let not = parse_brain_filter("not:wander,grazer").unwrap();
    assert_eq!(not.iter().filter(|&&b| b).count(), FAMILY_COUNT - 2);
    assert!(!not[fam("Wander")] && !not[fam("Grazer")]);
}

#[test]
fn command_line_defaults() {
    let s = RecordSettings::parse(&args(&[])).ok().unwrap();
    assert_eq!(s.scenario, None);
    assert_eq!(s.out, "outputs/out.mp4");
    assert_eq!(s.fps, "30");
    assert_eq!(s.seconds, "61");
    assert_eq!((s.width, s.height), (None, None));
    assert_eq!(s.select, "vanguard");
    assert_eq!(s.select_interval, "4");
    assert!(s.hud);
    assert_eq!(s.hud_interval, "6");
    assert!(!s.nutrients);
    assert_eq!(s.stop_when, None);
    assert_eq!(s.stop_after, "3");
}

#[test]
fn command_line_options_and_first_positional() {
    let s = RecordSettings::parse(&args(&[
        "reef.ron", "-o", "a.mp4", "--fps", "24", "--seconds", "2.5e1", "-w", "+640", "--height", "360",
        "--no-hud", "--nutrients", "--select", "cycle", "--select-interval", ".5", "--hud-interval", "7.",
        "--stop-when", "!sessile", "--stop-after", "-inf", "other.ron", "--out", "b.mp4",
    ]))
    .ok()
    .unwrap();
    assert_eq!(s.scenario.as_deref(), Some("reef.ron"));
    assert_eq!(s.out, "b.mp4");
    assert_eq!(s.fps, "24");
    assert_eq!(s.seconds, "2.5e1");
    assert_eq!(s.width, Some(640));
    assert_eq!(s.height, Some(360));
    assert!(!s.hud && s.nutrients);
    assert_eq!(s.select, "cycle");
    assert_eq!(s.select_interval, ".5");
    assert_eq!(s.hud_interval, "7.");
    assert_eq!(s.stop_when.unwrap().iter().filter(|&&b| b).count(), FAMILY_COUNT - 1);
    assert_eq!(s.stop_after, "-inf");
    // numeric text that the float grammar accepts reads as the same number
    assert_eq!(s.seconds.parse::<f64>().unwrap(), 25.0);
    assert_eq!(s.select_interval.parse::<f32>().unwrap(), 0.5);
}

#[test]
fn command_line_refusals() {
    assert!(matches!(RecordSettings::parse(&args(&["--fps"])), Err(RecordArgError::MissingValue(a)) if a == "--fps"));
    assert!(matches!(RecordSettings::parse(&args(&["--fps", "fast"])), Err(RecordArgError::BadNumber(m)) if m == "--fps: number expected"));
    assert!(matches!(RecordSettings::parse(&args(&["-w", "1.5"])), Err(RecordArgError::BadNumber(m)) if m == "--width: integer expected"));
    assert!(matches!(RecordSettings::parse(&args(&["-h", "4294967296"])), Err(RecordArgError::BadNumber(m)) if m == "--height: integer expected"));
    assert!(matches!(RecordSettings::parse(&args(&["--select", "random"])), Err(RecordArgError::UnknownSelectMode(v)) if v == "random"));
    assert!(matches!(RecordSettings::parse(&args(&["--stop-when", "x"])), Err(RecordArgError::StopWhen(m)) if m.starts_with("unknown brain \"x\"")));
    assert!(matches!(RecordSettings::parse(&args(&["--frames", "3"])), Err(RecordArgError::UnknownOption(a)) if a == "--frames"));
    assert!(matches!(RecordSettings::parse(&args(&["-"])), Err(RecordArgError::UnknownOption(a)) if a == "-"));
    // the first refusal ends the reading
    assert!(matches!(RecordSettings::parse(&args(&["--fps", "x", "--bogus"])), Err(RecordArgError::BadNumber(_))));
    assert!(matches!(RecordSettings::parse(&args(&["--stop-after", "1e", "--fps", "2"])), Err(RecordArgError::BadNumber(m)) if m == "--stop-after: number (seconds) expected"));
    assert!(matches!(RecordSettings::parse(&args(&["--seconds", "NaN"])), Ok(_)));
    assert!(matches!(RecordSettings::parse(&args(&["--seconds", "infinity"])), Ok(_)));
    assert!(matches!(RecordSettings::parse(&args(&["--seconds", " 1"])), Err(RecordArgError::BadNumber(_))));
    assert!(matches!(RecordSettings::parse(&args(&["--seconds", "."])), Err(RecordArgError::BadNumber(_))));
    assert!(matches!(RecordSettings::parse(&args(&["--seconds", "1e+3"])), Ok(_)));
}

#[test]
fn frame_size_follows_the_hud_unless_given() {
    assert_eq!(frame_size(true, None, None), (1080, 1920));
    assert_eq!(frame_size(false, None, None), (1080, 1080));
    assert_eq!(frame_size(true, Some(720), None), (720, 1920));
    assert_eq!(frame_size(false, None, Some(500)), (1080, 500));
}

#[test]
fn auto_stop_fires_once_after_a_watched_extinction() {
    let mut watched = [false; FAMILY_COUNT];
    watched[fam("MLP")] = true;
    let mlp = fam("MLP");
    let hunter = fam("Hunter");
    let mut stop = AutoStop::new(watched, 90);
    // nothing watched ever seen: never fires
    assert_eq!(stop.observe(&vec![hunter], 10, 1830), 1830);
    assert!(!stop.fired && !stop.seen_alive);
    // a watched family lives
    assert_eq!(stop.observe(&vec![hunter, mlp], 11, 1830), 1830);
    assert!(stop.seen_alive && !stop.fired);
    // it died out: the plan is cut to `grace` frames from now
    assert_eq!(stop.observe(&vec![hunter], 100, 1830), 190);
    assert!(stop.fired);
    // latched: later checks change nothing
    assert_eq!(stop.observe(&vec![], 150, 190), 190);
    assert!(stop.fired);
    // never lengthens the plan, and saturates
    let mut late = AutoStop::new(watched, u32::MAX);
    late.observe(&vec![mlp], 0, 50);
    assert_eq!(late.observe(&vec![], 40, 50), 50);
}

#[test]
fn watched_families_are_named_in_order() {
    let mut mask = [false; FAMILY_COUNT];
    assert_eq!(teemlab::record::watched_names(&mask), "");
    mask[fam("MLP")] = true;
    mask[fam("Hunter")] = true;
    assert_eq!(teemlab::record::watched_names(&mask), "Hunter,MLP");
}
