//! Names of the files a render writes, and the frame header printed before
//! each frame. The clock reading comes from outside as plain numbers.

use vstd::prelude::*;
use crate::text::{
    decimal, int_text, zero_padded, i32_text, u64_text, u64_text_padded, digits_value, all_digits,
    is_digit, lemma_decimal,
};

verus! {

/// When the output of a render was started, as the calendar shows it.
#[derive(Clone, Copy, Debug, PartialEq, Eq, Structural)]
pub struct OutputTime {
    pub year: i32,
    pub month: u32,
    pub day: u32,
    pub hour: u32,
    pub minute: u32,
    pub second: u32,
}

/// Where single images go.
pub open spec fn image_dir() -> Seq<char> {
    "data/output"@
}

/// Where the frames of an animation go.
pub open spec fn animation_dir() -> Seq<char> {
    "data/output/animation"@
}

/// The directory for an image: the animation directory when an animation
/// is wanted and the scene has one, else the image directory.
pub open spec fn output_dir_spec(animate: bool, has_animation: bool) -> Seq<char> {
    if animate && has_animation {
        animation_dir()
    } else {
        image_dir()
    }
}

/// `year-month-day_hour-minute-second`, each number in plain decimal.
pub open spec fn stamp_spec(t: OutputTime) -> Seq<char> {
    int_text(t.year as int) + "-"@ + decimal(t.month as nat) + "-"@ + decimal(t.day as nat) + "_"@
        + decimal(t.hour as nat) + "-"@ + decimal(t.minute as nat) + "-"@ + decimal(
        t.second as nat,
    )
}

/// The path of a saved image: `dir/output_<stamp>_<frame>` with the frame
/// number padded to eight digits, then `_<postfix>` if there is one, then
/// `.png`.
pub open spec fn image_path_spec(dir: Seq<char>, t: OutputTime, frame: u64, postfix: Option<Seq<char>>) -> Seq<char> {
    let base = dir + "/output_"@ + stamp_spec(t) + "_"@ + zero_padded(decimal(frame as nat), 8);
    match postfix {
        Some(p) => base + "_"@ + p + ".png"@,
        None => base + ".png"@,
    }
}

/// The directory for an image (see `output_dir_spec`).
pub fn output_dir(animate: bool, has_animation: bool) -> (d: &'static str)
    ensures
        d@ == output_dir_spec(animate, has_animation),
{
    if animate && has_animation {
        "data/output/animation"
    } else {
        "data/output"
    }
}

/// Writes the time stamp of an output (see `stamp_spec`).
pub fn stamp(t: OutputTime) -> (s: String)
    ensures
        s@ == stamp_spec(t),
{
    let mut s = i32_text(t.year);
    s.append("-");
    s.append(u64_text(t.month as u64).as_str());
    s.append("-");
    s.append(u64_text(t.day as u64).as_str());
    s.append("_");
    s.append(u64_text(t.hour as u64).as_str());
    s.append("-");
    s.append(u64_text(t.minute as u64).as_str());
    s.append("-");
    s.append(u64_text(t.second as u64).as_str());
    s
}

/// The path of a saved image (see `image_path_spec`).
pub fn image_path(dir: &str, t: OutputTime, frame: u64, postfix: Option<&str>) -> (s: String)
    ensures
        s@ == image_path_spec(
            dir@,
            t,
            frame,
            match postfix {
                Some(p) => Some(p@),
                None => None,
            },
        ),
{
    let mut s = String::from_str(dir);
    s.append("/output_");
    s.append(stamp(t).as_str());
    s.append("_");
    s.append(u64_text_padded(frame, 8).as_str());
    match postfix {
        Some(p) => {
            s.append("_");
            s.append(p);
            s.append(".png");
        },
        None => {
            s.append(".png");
        },
    }
    s
}

/// The file pattern that names every frame of an animation for ffmpeg
/// (`%08d` standing for the frame number), and the name to give the film
/// without its extension.
pub fn animation_names(t: OutputTime) -> (names: (String, String))
    ensures
        names.0@ == animation_dir() + "/output_"@ + stamp_spec(t) + "_%08d.png"@,
        names.1@ == animation_dir() + "/output_"@ + stamp_spec(t),
{
    let mut base = String::from_str("data/output/animation");
    base.append("/output_");
    base.append(stamp(t).as_str());
    let mut pattern = base.clone();
    pattern.append("_%08d.png");
    (pattern, base)
}

/// How many frames the header counts: the animation's frames when the
/// scene is animated, else one.
pub fn frames_shown(has_animation: bool, frames_to_render: u64) -> (n: u64)
    ensures
        n == if has_animation {
            frames_to_render
        } else {
            1
        },
{
    if has_animation {
        frames_to_render
    } else {
        1
    }
}

/// The header printed before a frame: `frame: <n>/<total>`, counting from
/// one, and under it a line of `=` just as long.
pub fn frame_header(frame: u64, frames: u64) -> (lines: (String, String))
    requires
        frame < u64::MAX,
    ensures
        lines.0@ == "frame: "@ + decimal((frame + 1) as nat) + "/"@ + decimal(frames as nat),
        lines.1@.len() == lines.0@.len(),
        forall|i: int| 0 <= i < lines.1@.len() ==> lines.1@[i] == '=',
{
    let mut head = String::from_str("frame: ");
    head.append(u64_text(frame + 1).as_str());
    head.append("/");
    head.append(u64_text(frames).as_str());
    let n = head.as_str().unicode_len();
    let mut rule = String::new();
    let mut i: usize = 0;
    proof {
        reveal_strlit("=");
    }
    while i < n
        invariant
            i <= n,
            rule@.len() == i,
            forall|j: int| 0 <= j < i ==> rule@[j] == '=',
        decreases n - i,
    {
        proof {
            reveal_strlit("=");
        }
        rule.append("=");
        i += 1;
    }
    (head, rule)
}

/// Leading zeros do not change the value that digits write.
proof fn lemma_leading_zeros_value(k: nat, s: Seq<char>)
    ensures
        digits_value(Seq::new(k, |i: int| '0') + s) == digits_value(s),
    decreases s.len(), k,
{
    let z = Seq::new(k, |i: int| '0');
    if s.len() > 0 {
        lemma_leading_zeros_value(k, s.drop_last());
        assert((z + s).drop_last() =~= z + s.drop_last());
        assert((z + s).last() == s.last());
    } else if k > 0 {
        lemma_leading_zeros_value((k - 1) as nat, s);
        let z1 = Seq::new((k - 1) as nat, |i: int| '0');
        assert(z + s =~= z);
        assert(z1 + s =~= z1);
        assert(z.drop_last() =~= z1);
        assert(z.last() == '0');
    } else {
        assert(z + s =~= s);
    }
}

/// The frame number padded to eight places is all digits, at least eight
/// of them, and reads back as the frame number.
proof fn lemma_padded_frame(frame: u64)
    ensures
        all_digits(zero_padded(decimal(frame as nat), 8)),
        zero_padded(decimal(frame as nat), 8).len() >= 8,
        digits_value(zero_padded(decimal(frame as nat), 8)) == frame,
{
    let d = decimal(frame as nat);
    lemma_decimal(frame as nat);
    if d.len() < 8 {
        let k = (8 - d.len()) as nat;
        lemma_leading_zeros_value(k, d);
        let z = zero_padded(d, 8);
        assert(z == Seq::new(k, |i: int| '0') + d);
        assert forall|i: int| 0 <= i < z.len() implies is_digit(#[trigger] z[i]) by {
            if i >= k {
                assert(z[i] == d[i - k]);
            }
        }
    }
}

/// The frame part of an image's file name reads back as the frame number:
/// between `dir/output_<stamp>_` and the ending (`_<postfix>.png` or
/// `.png`) stand at least eight digits whose value is the frame. So two
/// frames of one render never share a file name.
pub proof fn lemma_image_path_frame(
    dir: Seq<char>,
    t: OutputTime,
    frame: u64,
    other: u64,
    postfix: Option<Seq<char>>,
)
    ensures
        ({
            let path = image_path_spec(dir, t, frame, postfix);
            let head = dir + "/output_"@ + stamp_spec(t) + "_"@;
            let tail = match postfix {
                Some(p) => "_"@ + p + ".png"@,
                None => ".png"@,
            };
            let part = path.subrange(head.len() as int, path.len() - tail.len());
            &&& path.len() >= head.len() + tail.len() + 8
            &&& path.take(head.len() as int) == head
            &&& path.skip(path.len() - tail.len()) == tail
            &&& all_digits(part)
            &&& digits_value(part) == frame
        }),
        image_path_spec(dir, t, frame, postfix) == image_path_spec(dir, t, other, postfix) ==> frame
            == other,
{
    let head = dir + "/output_"@ + stamp_spec(t) + "_"@;
    let tail = match postfix {
        Some(p) => "_"@ + p + ".png"@,
        None => ".png"@,
    };
    let z1 = zero_padded(decimal(frame as nat), 8);
    let z2 = zero_padded(decimal(other as nat), 8);
    lemma_padded_frame(frame);
    lemma_padded_frame(other);
    let p1 = image_path_spec(dir, t, frame, postfix);
    let p2 = image_path_spec(dir, t, other, postfix);
    assert(p1 =~= head + z1 + tail);
    assert(p2 =~= head + z2 + tail);
    assert(p1.take(head.len() as int) =~= head);
    assert(p1.skip(p1.len() - tail.len()) =~= tail);
    assert(p1.subrange(head.len() as int, p1.len() - tail.len()) =~= z1);
    if p1 == p2 {
        assert(z1.len() == z2.len());
        assert(p2.subrange(head.len() as int, p2.len() - tail.len()) =~= z2);
        assert(z1 == z2);
    }
}

} // verus!
