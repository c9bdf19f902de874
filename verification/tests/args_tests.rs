use rustray::args::{arg_readable, default_cmd_args, parse_args, read_arg, try_parse_args};

fn words(ws: &[&str]) -> Vec<String> {
    ws.iter().map(|w| w.to_string()).collect()
}

#[test]
fn no_arguments_gives_defaults() {
    let c = try_parse_args(&words(&["rustray"])).unwrap();
    assert!(c.window);
    assert!(c.animation);
    assert!(c.scenes.is_empty());
    assert_eq!((c.width, c.height), (0, 0));
    assert_eq!(c.monte_carlo, None);
    assert_eq!(c.samples, None);
    assert!(!c.start);
}

#[test]
fn every_kind_of_argument_is_read() {
    let c = try_parse_args(&words(&[
        "rustray",
        "cmd",
        "no-animation",
        "scene/a.json",
        "1024x768",
        "samples=16",
        "monte_carlo=true",
        "start=1",
        "scene/b.glb",
    ]))
    .unwrap();
    assert!(!c.window);
    assert!(!c.animation);
    assert_eq!(c.scenes, vec!["scene/a.json".to_string(), "scene/b.glb".to_string()]);
    assert_eq!((c.width, c.height), (1024, 768));
    assert_eq!(c.samples, Some(16));
    assert_eq!(c.monte_carlo, Some(true));
    assert!(c.start);
}

#[test]
fn later_words_win() {
    let c = try_parse_args(&words(&["640x480", "800x600", "samples=4", "samples=1"])).unwrap();
    assert_eq!((c.width, c.height), (800, 600));
    assert_eq!(c.samples, Some(1));
}

#[test]
fn yes_words_are_one_and_true_only() {
    let c = try_parse_args(&words(&["monte_carlo=0", "start=yes"])).unwrap();
    assert_eq!(c.monte_carlo, Some(false));
    assert!(!c.start);
    let c = try_parse_args(&words(&["monte_carlo=1", "start=true"])).unwrap();
    assert_eq!(c.monte_carlo, Some(true));
    assert!(c.start);
}

#[test]
fn scene_files_by_extension() {
    let c = try_parse_args(&words(&["a.obj", "b.gltf", "c.txt", "d.json"])).unwrap();
    assert_eq!(c.scenes, vec!["a.obj".to_string(), "b.gltf".to_string(), "d.json".to_string()]);
}

#[test]
fn words_that_are_not_resolutions_are_ignored() {
    let c = try_parse_args(&words(&["800x600x3", "x600", "800x", "-800x600"])).unwrap();
    assert_eq!((c.width, c.height), (0, 0));
}

#[test]
fn unreadable_sample_count_is_refused() {
    assert!(try_parse_args(&words(&["samples=abc"])).is_none());
    assert!(try_parse_args(&words(&["cmd", "samples=70000"])).is_none());
}

#[test]
fn resolution_too_large_is_refused() {
    assert!(try_parse_args(&words(&["99999999999x600"])).is_none());
}

#[test]
fn parse_args_agrees_with_try_parse_args() {
    let w = words(&["rustray", "cmd", "320x200", "samples=8"]);
    let a = parse_args(&w);
    let b = try_parse_args(&w).unwrap();
    assert_eq!(a.window, b.window);
    assert_eq!((a.width, a.height), (b.width, b.height));
    assert_eq!(a.samples, b.samples);
    assert_eq!((a.width, a.height), (320, 200));
}

#[test]
fn readme_example_command_lines() {
    let c = try_parse_args(&words(&[
        "rustray",
        "scene/helmet.json",
        "cmd",
        "no-animation",
        "samples=64",
        "1280x720",
        "monte_carlo=1",
    ]))
    .unwrap();
    assert_eq!(c.scenes, vec!["scene/helmet.json".to_string()]);
    assert!(!c.window && !c.animation);
    assert_eq!(c.samples, Some(64));
    assert_eq!((c.width, c.height), (1280, 720));
    assert_eq!(c.monte_carlo, Some(true));

    let c = try_parse_args(&words(&[
        "rustray",
        "scene/room.json",
        "scene/kbert.json",
        "cmd",
        "samples=64",
        "1280x720",
        "monte_carlo=1",
    ]))
    .unwrap();
    assert_eq!(c.scenes, vec!["scene/room.json".to_string(), "scene/kbert.json".to_string()]);
    assert!(!c.window && c.animation);

    let c = try_parse_args(&words(&["rustray", "scene/corset.json", "samples=256", "1280x720", "monte_carlo=1"])).unwrap();
    assert!(c.window);
    assert_eq!(c.samples, Some(256));

    let c = try_parse_args(&words(&["rustray", "scene/helmet.json", "no-animation", "samples=32", "800x600", "monte_carlo=1"])).unwrap();
    assert_eq!((c.width, c.height), (800, 600));
    assert_eq!(c.samples, Some(32));
}

#[test]
fn reading_words_given_the_resolution_test() {
    let mut c = default_cmd_args();
    assert!(arg_readable("1920x1080", true));
    read_arg(&mut c, &"1920x1080".to_string(), true);
    assert_eq!((c.width, c.height), (1920, 1080));
    // a word that does not match the pattern is no resolution
    read_arg(&mut c, &"640x480".to_string(), false);
    assert_eq!((c.width, c.height), (1920, 1080));
    assert!(!arg_readable("99999999999x1", true));
    assert!(arg_readable("99999999999x1", false));
    assert!(!arg_readable("samples=x", false));
    assert!(arg_readable("samples=12", false));
    // earlier tests win over the resolution test
    read_arg(&mut c, &"cmd".to_string(), true);
    assert!(!c.window);
    read_arg(&mut c, &"start=true".to_string(), false);
    assert!(c.start);
    read_arg(&mut c, &"samples=12".to_string(), false);
    assert_eq!(c.samples, Some(12));
}
