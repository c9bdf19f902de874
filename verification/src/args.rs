//! Reading the command line: render without a window, skip animation, pick
//! scenes, resolution, sample count and start-up behaviour.

use vstd::prelude::*;
use crate::text::{
    split_on, split_on_char, views, str_eq, starts_with, ends_with, has_prefix, has_suffix,
    parse_i32, parse_u16, parse_i32_spec, parse_u16_spec, lemma_split_prefix_sep, lacks,
    lemma_split_without_sep, lemma_split_join, lemma_split_len,
};

verus! {

/// Name for what `regex::Regex::new(pattern)` and then `Regex::is_match`
/// on `text` give: `None` when the pattern does not compile, else whether
/// the text matches.
pub uninterp spec fn regex_match(pattern: Seq<char>, text: Seq<char>) -> Option<bool>;

/// Compiles `pattern` with `regex::Regex::new` and tests `text` with
/// `Regex::is_match`. The contract only ties the answer to the two strings
/// through the name `regex_match`; what the regex crate accepts is not
/// restated here.
#[verifier::external_body]
fn regex_is_match(pattern: &str, text: &str) -> (r: Option<bool>)
    ensures
        r == regex_match(pattern@, text@),
{
    match regex::Regex::new(pattern) {
        Ok(re) => Some(re.is_match(text)),
        Err(_) => None,
    }
}

/// The pattern of a resolution argument such as `800x600`.
pub open spec fn resolution_pattern() -> Seq<char> {
    "^\\d+x\\d+$"@
}

/// The settings that the command line chooses.
pub struct CmdArgs {
    pub window: bool,
    pub scenes: Vec<String>,
    pub animation: bool,
    pub width: i32,
    pub height: i32,
    pub monte_carlo: Option<bool>,
    pub samples: Option<u16>,
    pub start: bool,
}

/// The settings as plain values.
pub struct ArgsModel {
    pub window: bool,
    pub scenes: Seq<Seq<char>>,
    pub animation: bool,
    pub width: i32,
    pub height: i32,
    pub monte_carlo: Option<bool>,
    pub samples: Option<u16>,
    pub start: bool,
}

impl View for CmdArgs {
    type V = ArgsModel;

    open spec fn view(&self) -> ArgsModel {
        ArgsModel {
            window: self.window,
            scenes: self.scenes@.map_values(|s: String| s@),
            animation: self.animation,
            width: self.width,
            height: self.height,
            monte_carlo: self.monte_carlo,
            samples: self.samples,
            start: self.start,
        }
    }
}

/// Settings before any argument is read: a window, animation on, no scene,
/// resolution 0 x 0 (chosen later), nothing forced, no auto start.
pub open spec fn default_args() -> ArgsModel {
    ArgsModel {
        window: true,
        scenes: Seq::empty(),
        animation: true,
        width: 0,
        height: 0,
        monte_carlo: None,
        samples: None,
        start: false,
    }
}

/// What kind of argument a word is, tested in this order.
#[derive(Clone, Copy, Debug, PartialEq, Eq, Structural)]
pub enum ArgKind {
    Cmd,
    NoAnimation,
    MonteCarlo,
    Scene,
    Resolution,
    Samples,
    Start,
    Other,
}

/// Whether the word names a scene file by its extension.
pub open spec fn is_scene_file(a: Seq<char>) -> bool {
    has_suffix(a, ".json"@) || has_suffix(a, ".gltf"@) || has_suffix(a, ".glb"@) || has_suffix(
        a,
        ".obj"@,
    )
}

/// Whether the tests before the resolution test all fail for the word.
pub open spec fn reaches_resolution_test(a: Seq<char>) -> bool {
    a != "cmd"@ && a != "no-animation"@ && !has_prefix(a, "monte_carlo="@) && !is_scene_file(a)
}

/// The kind of the word `a`, given whether it matches the resolution
/// pattern (`matches_resolution`); that test is made only for words that
/// reach it.
pub open spec fn arg_kind_given(a: Seq<char>, matches_resolution: bool) -> ArgKind {
    if a == "cmd"@ {
        ArgKind::Cmd
    } else if a == "no-animation"@ {
        ArgKind::NoAnimation
    } else if has_prefix(a, "monte_carlo="@) {
        ArgKind::MonteCarlo
    } else if is_scene_file(a) {
        ArgKind::Scene
    } else if matches_resolution {
        ArgKind::Resolution
    } else if has_prefix(a, "samples="@) {
        ArgKind::Samples
    } else if has_prefix(a, "start="@) {
        ArgKind::Start
    } else {
        ArgKind::Other
    }
}

/// Whether the resolution pattern, compiled by the regex crate, matches `a`.
pub open spec fn resolution_match(a: Seq<char>) -> bool {
    regex_match(resolution_pattern(), a) == Some(true)
}

/// The kind of the word `a`.
pub open spec fn arg_kind(a: Seq<char>) -> ArgKind {
    arg_kind_given(a, resolution_match(a))
}

/// Whether the word says yes: `1` or `true`.
pub open spec fn is_yes(v: Seq<char>) -> bool {
    v == "1"@ || v == "true"@
}

/// Whether reading the word succeeds once its kind is known: a resolution
/// has two numbers around its `x`, and a sample count is a number.
pub open spec fn arg_ok_given(a: Seq<char>, matches_resolution: bool) -> bool {
    &&& arg_kind_given(a, matches_resolution) is Resolution ==> {
        let p = split_on(a, 'x');
        &&& p.len() >= 2
        &&& parse_i32_spec(p[0]) is Some
        &&& parse_i32_spec(p[1]) is Some
    }
    &&& arg_kind_given(a, matches_resolution) is Samples ==> parse_u16_spec(split_on(a, '=')[1]) is Some
}

/// Whether reading the word succeeds: the resolution pattern compiles when
/// the word gets that far, and `arg_ok_given` holds.
pub open spec fn arg_ok(a: Seq<char>) -> bool {
    &&& reaches_resolution_test(a) ==> regex_match(resolution_pattern(), a) is Some
    &&& arg_ok_given(a, resolution_match(a))
}

/// The settings after reading the word `a` on top of `m`, given whether it
/// matches the resolution pattern.
pub open spec fn apply_arg_given(m: ArgsModel, a: Seq<char>, matches_resolution: bool) -> ArgsModel {
    match arg_kind_given(a, matches_resolution) {
        ArgKind::Cmd => ArgsModel { window: false, ..m },
        ArgKind::NoAnimation => ArgsModel { animation: false, ..m },
        ArgKind::MonteCarlo => ArgsModel { monte_carlo: Some(is_yes(split_on(a, '=')[1])), ..m },
        ArgKind::Scene => ArgsModel { scenes: m.scenes.push(a), ..m },
        ArgKind::Resolution => ArgsModel {
            width: parse_i32_spec(split_on(a, 'x')[0]).unwrap(),
            height: parse_i32_spec(split_on(a, 'x')[1]).unwrap(),
            ..m
        },
        ArgKind::Samples => ArgsModel {
            samples: Some(parse_u16_spec(split_on(a, '=')[1]).unwrap()),
            ..m
        },
        ArgKind::Start => ArgsModel { start: is_yes(split_on(a, '=')[1]), ..m },
        ArgKind::Other => m,
    }
}

/// The settings after reading the word `a` on top of `m`.
pub open spec fn apply_arg(m: ArgsModel, a: Seq<char>) -> ArgsModel {
    apply_arg_given(m, a, resolution_match(a))
}

/// The settings after reading all words, first to last.
pub open spec fn args_model(args: Seq<Seq<char>>) -> ArgsModel
    decreases args.len(),
{
    if args.len() == 0 {
        default_args()
    } else {
        apply_arg(args_model(args.drop_last()), args.last())
    }
}

/// The views of a sequence of strings.
pub open spec fn string_views(args: Seq<String>) -> Seq<Seq<char>> {
    args.map_values(|s: String| s@)
}

fn is_yes_word(v: &str) -> (r: bool)
    ensures
        r == is_yes(v@),
{
    str_eq(v, "1") || str_eq(v, "true")
}

/// The word after the first `=`, up to the next one.
fn value_after_eq<'a>(a: &'a str, Ghost(prefix): Ghost<Seq<char>>) -> (v: &'a str)
    requires
        has_prefix(a@, prefix),
        prefix.len() > 0,
        prefix.last() == '=',
    ensures
        v@ == split_on(a@, '=')[1],
{
    let parts = split_on_char(a, '=');
    proof {
        lemma_split_prefix_sep(a@, prefix, '=');
        assert(views(parts@)[1] == parts@[1]@);
    }
    parts[1]
}

/// Whether the word reaches the resolution test (see
/// `reaches_resolution_test`).
fn reaches_resolution(a: &str) -> (r: bool)
    ensures
        r == reaches_resolution_test(a@),
{
    !str_eq(a, "cmd") && !str_eq(a, "no-animation") && !starts_with(a, "monte_carlo=") && !(
    ends_with(a, ".json") || ends_with(a, ".gltf") || ends_with(a, ".glb") || ends_with(
        a,
        ".obj",
    ))
}

fn arg_kind_of(a: &str, matches_resolution: bool) -> (k: ArgKind)
    ensures
        k == arg_kind_given(a@, matches_resolution),
{
    if str_eq(a, "cmd") {
        ArgKind::Cmd
    } else if str_eq(a, "no-animation") {
        ArgKind::NoAnimation
    } else if starts_with(a, "monte_carlo=") {
        ArgKind::MonteCarlo
    } else if ends_with(a, ".json") || ends_with(a, ".gltf") || ends_with(a, ".glb") || ends_with(
        a,
        ".obj",
    ) {
        ArgKind::Scene
    } else if matches_resolution {
        ArgKind::Resolution
    } else if starts_with(a, "samples=") {
        ArgKind::Samples
    } else if starts_with(a, "start=") {
        ArgKind::Start
    } else {
        ArgKind::Other
    }
}

/// Tests the word against the resolution pattern with the regex crate,
/// where it gets that far: `None` when the pattern does not compile there,
/// else whether it matches (`false` for words decided before the test).
fn match_resolution(a: &str) -> (r: Option<bool>)
    ensures
        reaches_resolution_test(a@) ==> r == regex_match(resolution_pattern(), a@),
        !reaches_resolution_test(a@) ==> r == Some(false),
{
    if reaches_resolution(a) {
        regex_is_match("^\\d+x\\d+$", a)
    } else {
        Some(false)
    }
}

/// Whether the word can be read once its kind is known (see
/// `arg_ok_given`).
pub fn arg_readable(a: &str, matches_resolution: bool) -> (r: bool)
    ensures
        r == arg_ok_given(a@, matches_resolution),
{
    let k = arg_kind_of(a, matches_resolution);
    match k {
        ArgKind::Resolution => {
            let p = split_on_char(a, 'x');
            if p.len() < 2 {
                return false;
            }
            proof {
                assert(views(p@)[0] == p@[0]@);
                assert(views(p@)[1] == p@[1]@);
            }
            match (parse_i32(p[0]), parse_i32(p[1])) {
                (Some(_), Some(_)) => true,
                _ => false,
            }
        },
        ArgKind::Samples => {
            proof {
                reveal_strlit("samples=");
            }
            let v = value_after_eq(a, Ghost("samples="@));
            match parse_u16(v) {
                Some(_) => true,
                None => false,
            }
        },
        _ => true,
    }
}

/// Reads one word on top of the settings in `m`, given whether it matches
/// the resolution pattern (see `apply_arg_given`).
pub fn read_arg(m: &mut CmdArgs, a: &String, matches_resolution: bool)
    requires
        arg_ok_given(a@, matches_resolution),
    ensures
        final(m)@ == apply_arg_given(old(m)@, a@, matches_resolution),
{
    let w = a.as_str();
    let k = arg_kind_of(w, matches_resolution);
    match k {
        ArgKind::Cmd => {
            m.window = false;
        },
        ArgKind::NoAnimation => {
            m.animation = false;
        },
        ArgKind::MonteCarlo => {
            proof {
                reveal_strlit("monte_carlo=");
            }
            let v = value_after_eq(w, Ghost("monte_carlo="@));
            m.monte_carlo = Some(is_yes_word(v));
        },
        ArgKind::Scene => {
            let ghost before = m.scenes@;
            m.scenes.push(a.clone());
            proof {
                assert(m.scenes@.map_values(|s: String| s@) =~= before.map_values(
                    |s: String| s@,
                ).push(a@));
            }
        },
        ArgKind::Resolution => {
            let p = split_on_char(w, 'x');
            proof {
                assert(views(p@)[0] == p@[0]@);
                assert(views(p@)[1] == p@[1]@);
            }
            match (parse_i32(p[0]), parse_i32(p[1])) {
                (Some(x), Some(y)) => {
                    m.width = x;
                    m.height = y;
                },
                _ => {},
            }
        },
        ArgKind::Samples => {
            proof {
                reveal_strlit("samples=");
            }
            let v = value_after_eq(w, Ghost("samples="@));
            match parse_u16(v) {
                Some(n) => {
                    m.samples = Some(n);
                },
                None => {},
            }
        },
        ArgKind::Start => {
            proof {
                reveal_strlit("start=");
            }
            let v = value_after_eq(w, Ghost("start="@));
            m.start = is_yes_word(v);
        },
        ArgKind::Other => {},
    }
}

/// The settings before any word is read (see `default_args`).
pub fn default_cmd_args() -> (c: CmdArgs)
    ensures
        c@ == default_args(),
{
    let c = CmdArgs {
        window: true,
        scenes: Vec::new(),
        animation: true,
        width: 0,
        height: 0,
        monte_carlo: None,
        samples: None,
        start: false,
    };
    proof {
        assert(c@.scenes =~= Seq::<Seq<char>>::empty());
    }
    c
}

/// Reads the command line, every word from first to last, each one over
/// what the earlier ones set. A later word wins over an earlier one of the
/// same kind; scene files are kept in order.
pub fn parse_args(args: &Vec<String>) -> (c: CmdArgs)
    requires
        forall|i: int| 0 <= i < args.len() ==> #[trigger] arg_ok(args@[i]@),
    ensures
        c@ == args_model(string_views(args@)),
{
    let mut c = default_cmd_args();
    proof {
        assert(string_views(args@.take(0)) =~= Seq::<Seq<char>>::empty());
    }
    let mut i: usize = 0;
    while i < args.len()
        invariant
            i <= args.len(),
            forall|j: int| 0 <= j < args.len() ==> #[trigger] arg_ok(args@[j]@),
            c@ == args_model(string_views(args@.take(i as int))),
        decreases args.len() - i,
    {
        assert(arg_ok(args@[i as int]@));
        let m = match_resolution(args[i].as_str());
        let matches = match m {
            Some(b) => b,
            None => false,
        };
        proof {
            if !reaches_resolution_test(args@[i as int]@) {
                assert(arg_kind_given(args@[i as int]@, false) == arg_kind(args@[i as int]@));
            }
        }
        read_arg(&mut c, &args[i], matches);
        proof {
            let t = string_views(args@.take(i + 1));
            assert(t.drop_last() =~= string_views(args@.take(i as int)));
            assert(t.last() == args@[i as int]@);
        }
        i += 1;
    }
    proof {
        assert(args@.take(args.len() as int) =~= args@);
    }
    c
}

/// Reads the command line when every word can be read, and gives `None`
/// when one of them cannot (a resolution whose numbers do not fit, a sample
/// count that is not a number, or a resolution pattern that does not
/// compile).
pub fn try_parse_args(args: &Vec<String>) -> (c: Option<CmdArgs>)
    ensures
        c is Some <==> forall|i: int| 0 <= i < args.len() ==> #[trigger] arg_ok(args@[i]@),
        c is Some ==> c->0@ == args_model(string_views(args@)),
{
    let mut i: usize = 0;
    while i < args.len()
        invariant
            i <= args.len(),
            forall|j: int| 0 <= j < i ==> #[trigger] arg_ok(args@[j]@),
        decreases args.len() - i,
    {
        let w = args[i].as_str();
        let ok = match match_resolution(w) {
            None => false,
            Some(matches) => {
                proof {
                    if !reaches_resolution_test(w@) {
                        assert(arg_kind_given(w@, false) == arg_kind(w@));
                    }
                }
                arg_readable(w, matches)
            },
        };
        proof {
            if !reaches_resolution_test(w@) {
                assert(arg_kind_given(w@, false) == arg_kind(w@));
            }
            assert(ok == arg_ok(args@[i as int]@));
        }
        if !ok {
            return None;
        }
        i += 1;
    }
    Some(parse_args(args))
}

/// A `monte_carlo=` word always sets the option, whatever came before it:
/// reading `monte_carlo=` followed by `v` forces Monte Carlo rendering on
/// when the text of `v` up to its first `=` is `1` or `true`, and off for
/// any other text (`0`, `false`, empty, ...), and leaves every other
/// setting as it was. After any earlier words, the last such word decides.
pub proof fn lemma_monte_carlo_word(m: ArgsModel, v: Seq<char>, matches_resolution: bool, before: Seq<Seq<char>>)
    ensures
        apply_arg_given(m, "monte_carlo="@ + v, matches_resolution).monte_carlo == Some(
            split_on(v, '=')[0] == "1"@ || split_on(v, '=')[0] == "true"@,
        ),
        lacks(v, '=') ==> apply_arg_given(m, "monte_carlo="@ + v, matches_resolution).monte_carlo
            == Some(v == "1"@ || v == "true"@),
        (ArgsModel { monte_carlo: m.monte_carlo, ..apply_arg_given(m, "monte_carlo="@ + v, matches_resolution) })
            == m,
        args_model(before.push("monte_carlo="@ + v)).monte_carlo == Some(
            split_on(v, '=')[0] == "1"@ || split_on(v, '=')[0] == "true"@,
        ),
{
    reveal_strlit("monte_carlo=");
    reveal_strlit("monte_carlo");
    reveal_strlit("cmd");
    reveal_strlit("no-animation");
    let a = "monte_carlo="@ + v;
    let head = "monte_carlo"@;
    assert(head.push('=') =~= "monte_carlo="@);
    assert(a.take(12) =~= "monte_carlo="@);
    assert(has_prefix(a, "monte_carlo="@));
    assert(a.len() >= 12);
    assert(a != "cmd"@) by {
        assert("cmd"@.len() == 3);
    }
    assert(a != "no-animation"@) by {
        assert(a[0] == 'm');
        assert("no-animation"@[0] == 'n');
    }
    assert(lacks(head, '=')) by {
        assert(head.len() == 11);
    }
    lemma_split_without_sep(head, '=');
    lemma_split_join(head, v, '=');
    assert(head.push('=') + v =~= a);
    lemma_split_len(v, '=');
    assert(split_on(a, '=')[1] == split_on(v, '=')[0]);
    if lacks(v, '=') {
        lemma_split_without_sep(v, '=');
    }
    assert(before.push(a).drop_last() =~= before);
    assert(before.push(a).last() == a);
}

} // verus!
