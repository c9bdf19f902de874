//! Where the window stands and how large it is, and the small text file
//! that keeps both between runs: `x`, `y`, width and height in decimal,
//! joined by `x`.

use vstd::prelude::*;
use crate::text::{
    split_on, split_on_char, views, parse_i32, parse_i32_spec, int_text, i32_text, lacks,
    lemma_split_join, lemma_split_without_sep, lemma_parse_int_text, lemma_int_text_lacks,
};

verus! {

/// The resolution used when none was given or stored.
pub const DEFAULT_WIDTH: i32 = 800;

/// The resolution used when none was given or stored.
pub const DEFAULT_HEIGHT: i32 = 600;

/// Window position and resolution.
#[derive(Clone, Copy, Debug, PartialEq, Eq, Structural)]
pub struct WindowLayout {
    pub window_x: i32,
    pub window_y: i32,
    pub width: i32,
    pub height: i32,
}

/// The text that stores a layout.
pub open spec fn pos_text(l: WindowLayout) -> Seq<char> {
    int_text(l.window_x as int) + seq!['x'] + int_text(l.window_y as int) + seq!['x'] + int_text(
        l.width as int,
    ) + seq!['x'] + int_text(l.height as int)
}

/// Whether the stored text can be read over `l`: when it has four parts,
/// the position parts are numbers, and so are the size parts if `l` has no
/// resolution yet.
pub open spec fn pos_data_ok(l: WindowLayout, data: Seq<char>) -> bool {
    let p = split_on(data, 'x');
    p.len() == 4 ==> {
        &&& parse_i32_spec(p[0]) is Some
        &&& parse_i32_spec(p[1]) is Some
        &&& (l.width == 0 && l.height == 0) ==> {
            &&& parse_i32_spec(p[2]) is Some
            &&& parse_i32_spec(p[3]) is Some
        }
    }
}

/// The layout after reading the stored text over `l`: text with four parts
/// sets the position, and sets the resolution only where none was chosen;
/// any other text changes nothing.
pub open spec fn load_pos(l: WindowLayout, data: Seq<char>) -> WindowLayout {
    let p = split_on(data, 'x');
    if p.len() != 4 {
        l
    } else if l.width == 0 && l.height == 0 {
        WindowLayout {
            window_x: parse_i32_spec(p[0]).unwrap(),
            window_y: parse_i32_spec(p[1]).unwrap(),
            width: parse_i32_spec(p[2]).unwrap(),
            height: parse_i32_spec(p[3]).unwrap(),
        }
    } else {
        WindowLayout {
            window_x: parse_i32_spec(p[0]).unwrap(),
            window_y: parse_i32_spec(p[1]).unwrap(),
            ..l
        }
    }
}

impl WindowLayout {
    /// A window at the origin with the given resolution (0 for "not chosen").
    pub fn new(width: i32, height: i32) -> (l: WindowLayout)
        ensures
            l.window_x == 0,
            l.window_y == 0,
            l.width == width,
            l.height == height,
    {
        WindowLayout { window_x: 0, window_y: 0, width, height }
    }

    /// The text to store for this layout.
    pub fn pos_data(&self) -> (s: String)
        ensures
            s@ == pos_text(*self),
    {
        let mut s = i32_text(self.window_x);
        proof {
            reveal_strlit("x");
        }
        s.append("x");
        let t = i32_text(self.window_y);
        s.append(t.as_str());
        s.append("x");
        let t = i32_text(self.width);
        s.append(t.as_str());
        s.append("x");
        let t = i32_text(self.height);
        s.append(t.as_str());
        s
    }

    /// Reads the stored text: four parts set the position, and the
    /// resolution too when none was chosen before.
    pub fn load_pos_data(&mut self, data: &str)
        requires
            pos_data_ok(*old(self), data@),
        ensures
            *final(self) == load_pos(*old(self), data@),
    {
        let size_unset = self.width == 0 && self.height == 0;
        let p = split_on_char(data, 'x');
        if p.len() != 4 {
            return;
        }
        proof {
            assert(views(p@)[0] == p@[0]@);
            assert(views(p@)[1] == p@[1]@);
            assert(views(p@)[2] == p@[2]@);
            assert(views(p@)[3] == p@[3]@);
        }
        match (parse_i32(p[0]), parse_i32(p[1])) {
            (Some(x), Some(y)) => {
                self.window_x = x;
                self.window_y = y;
            },
            _ => {},
        }
        if size_unset {
            match (parse_i32(p[2]), parse_i32(p[3])) {
                (Some(w), Some(h)) => {
                    self.width = w;
                    self.height = h;
                },
                _ => {},
            }
        }
    }

    /// Whether `load_pos_data` can read `data` over this layout.
    pub fn pos_data_readable(&self, data: &str) -> (b: bool)
        ensures
            b == pos_data_ok(*self, data@),
    {
        let p = split_on_char(data, 'x');
        if p.len() != 4 {
            return true;
        }
        proof {
            assert(views(p@)[0] == p@[0]@);
            assert(views(p@)[1] == p@[1]@);
            assert(views(p@)[2] == p@[2]@);
            assert(views(p@)[3] == p@[3]@);
        }
        let pos_ok = match (parse_i32(p[0]), parse_i32(p[1])) {
            (Some(_), Some(_)) => true,
            _ => false,
        };
        let size_ok = match (parse_i32(p[2]), parse_i32(p[3])) {
            (Some(_), Some(_)) => true,
            _ => false,
        };
        pos_ok && (!(self.width == 0 && self.height == 0) || size_ok)
    }

    /// Falls back to the default resolution when either side is 0.
    pub fn apply_default_resolution(&mut self)
        ensures
            (old(self).width == 0 || old(self).height == 0) ==> final(self).width == DEFAULT_WIDTH
                && final(self).height == DEFAULT_HEIGHT,
            !(old(self).width == 0 || old(self).height == 0) ==> final(self).width == old(
                self,
            ).width && final(self).height == old(self).height,
            final(self).window_x == old(self).window_x,
            final(self).window_y == old(self).window_y,
    {
        if self.width == 0 || self.height == 0 {
            self.width = DEFAULT_WIDTH;
            self.height = DEFAULT_HEIGHT;
        }
    }

    /// Takes a new window position; `true` when it differs from the one
    /// held, which is then to be stored.
    pub fn move_to(&mut self, x: i32, y: i32) -> (changed: bool)
        ensures
            changed == (x != old(self).window_x || y != old(self).window_y),
            final(self).window_x == x,
            final(self).window_y == y,
            final(self).width == old(self).width,
            final(self).height == old(self).height,
    {
        let changed = x != self.window_x || y != self.window_y;
        self.window_x = x;
        self.window_y = y;
        changed
    }

    /// Takes a new window size; `true` when it differs from the one held,
    /// which is then to be stored and the picture rendered again.
    pub fn resize_to(&mut self, w: i32, h: i32) -> (changed: bool)
        ensures
            changed == (w != old(self).width || h != old(self).height),
            final(self).width == w,
            final(self).height == h,
            final(self).window_x == old(self).window_x,
            final(self).window_y == old(self).window_y,
    {
        let changed = w != self.width || h != self.height;
        self.width = w;
        self.height = h;
        changed
    }
}

/// The stored text of a layout splits into the four numbers' texts.
proof fn lemma_pos_text_parts(l: WindowLayout)
    ensures
        split_on(pos_text(l), 'x') == seq![
            int_text(l.window_x as int),
            int_text(l.window_y as int),
            int_text(l.width as int),
            int_text(l.height as int),
        ],
{
    let a = int_text(l.window_x as int);
    let b = int_text(l.window_y as int);
    let c = int_text(l.width as int);
    let d = int_text(l.height as int);
    lemma_int_text_lacks(l.window_x as int, 'x');
    lemma_int_text_lacks(l.window_y as int, 'x');
    lemma_int_text_lacks(l.width as int, 'x');
    lemma_int_text_lacks(l.height as int, 'x');
    lemma_split_without_sep(a, 'x');
    lemma_split_without_sep(b, 'x');
    lemma_split_without_sep(c, 'x');
    lemma_split_without_sep(d, 'x');
    let ab = a.push('x') + b;
    let abc = ab.push('x') + c;
    assert(pos_text(l) =~= abc.push('x') + d);
    lemma_split_join(a, b, 'x');
    lemma_split_join(ab, c, 'x');
    lemma_split_join(abc, d, 'x');
    assert(split_on(pos_text(l), 'x') =~= seq![a, b, c, d]);
}

/// Reading back the stored text of a layout restores its position, and
/// its resolution too when none was chosen before reading; the text is
/// always readable.
pub proof fn lemma_pos_data_round_trip(stored: WindowLayout, current: WindowLayout)
    ensures
        pos_data_ok(current, pos_text(stored)),
        load_pos(current, pos_text(stored)).window_x == stored.window_x,
        load_pos(current, pos_text(stored)).window_y == stored.window_y,
        (current.width == 0 && current.height == 0) ==> load_pos(current, pos_text(stored))
            == stored,
        !(current.width == 0 && current.height == 0) ==> load_pos(current, pos_text(stored)).width
            == current.width && load_pos(current, pos_text(stored)).height == current.height,
{
    lemma_pos_text_parts(stored);
    lemma_parse_int_text(stored.window_x);
    lemma_parse_int_text(stored.window_y);
    lemma_parse_int_text(stored.width);
    lemma_parse_int_text(stored.height);
}

} // verus!
