//! A path tracked both in Linux and in Windows form.
//!
//! The path is kept as a sequence of directory segments together with a
//! rendered Linux-style string (`/home/username`). Changes are made one
//! directory at a time: descending pushes a segment, going to the parent pops
//! one. Simple whole-path strings in either Linux or Windows style can also be
//! parsed, segment by segment.

use crate::strutil::push_char;
use crate::strutil::split_chars;
use crate::strutil::split_string;
use crate::strutil::str_eq;
use vstd::prelude::*;
use vstd::string::StrSliceExecFns;
use vstd::string::StringExecFns;

verus! {

/// A segment is accepted into a path when it is not `/`, not `.`, and holds
/// at least one character other than a space.
pub open spec fn seg_ok(d: Seq<char>) -> bool {
    &&& exists|i: int| 0 <= i < d.len() && d[i] != ' '
    &&& d != seq!['/']
    &&& d != seq!['.']
}

/// The first rendered piece of a segment list: the leading segment, except
/// that a leading `/` segment is rendered empty when further segments follow
/// (so that `/home` renders with a single slash).
pub open spec fn first_seg(segs: Seq<Seq<char>>) -> Seq<char> {
    if segs[0] == seq!['/'] && segs.len() > 1 {
        Seq::empty()
    } else {
        segs[0]
    }
}

/// The rendering of the first `i` segments: the first piece followed by
/// `/segment` for each later segment.
pub open spec fn path_prefix(segs: Seq<Seq<char>>, i: int) -> Seq<char>
    decreases i,
{
    if i <= 0 {
        Seq::empty()
    } else if i == 1 {
        first_seg(segs)
    } else {
        path_prefix(segs, i - 1) + seq!['/'] + segs[i - 1]
    }
}

/// The rendered string of a whole segment list; an empty list renders as the
/// root `/`.
pub open spec fn path_of(segs: Seq<Seq<char>>) -> Seq<char> {
    if segs.len() == 0 {
        seq!['/']
    } else {
        path_prefix(segs, segs.len() as int)
    }
}

/// The Windows form of a rendered path: every `/` becomes `\`.
pub open spec fn win_of(s: Seq<char>) -> Seq<char> {
    Seq::new(s.len(), |i: int| if s[i] == '/' { '\\' } else { s[i] })
}

/// The Windows form without a leading backslash: an absolute `\home\admin`
/// becomes the relative `home\admin`.
pub open spec fn win_local_of(s: Seq<char>) -> Seq<char> {
    let w = win_of(s);
    if w.len() > 0 && w[0] == '\\' {
        w.skip(1)
    } else {
        w
    }
}

/// The segments that parsing a path string produces: a leading separator
/// contributes a `/` segment, and every acceptable piece between separators
/// is kept in order.
pub open spec fn parse_segs(s: Seq<char>, sep: char) -> Seq<Seq<char>> {
    let base: Seq<Seq<char>> = if s.len() > 0 && s[0] == sep {
        seq![seq!['/']]
    } else {
        Seq::empty()
    };
    base + kept_segs(split_chars(s, sep))
}

/// Parsing an empty string yields no segments: the split of an empty string
/// is one empty piece, and an empty piece is not an acceptable segment.
pub proof fn lemma_parse_empty(sep: char)
    ensures
        parse_segs(Seq::<char>::empty(), sep) == Seq::<Seq<char>>::empty(),
{
    let pieces = split_chars(Seq::<char>::empty(), sep);
    assert(pieces == seq![Seq::<char>::empty()]);
    assert(pieces.drop_last() =~= Seq::<Seq<char>>::empty());
    assert(!seg_ok(pieces.last()));
    assert(kept_segs(pieces.drop_last()) + Seq::<Seq<char>>::empty() =~= Seq::<Seq<char>>::empty());
    assert(parse_segs(Seq::<char>::empty(), sep) =~= Seq::<Seq<char>>::empty());
}

/// The pieces of a split that are acceptable segments, in order.
pub open spec fn kept_segs(pieces: Seq<Seq<char>>) -> Seq<Seq<char>>
    decreases pieces.len(),
{
    if pieces.len() == 0 {
        Seq::empty()
    } else {
        kept_segs(pieces.drop_last()) + if seg_ok(pieces.last()) {
            seq![pieces.last()]
        } else {
            Seq::empty()
        }
    }
}

/// Tracks a system path through popping and pushing directories, keeping a
/// rendered Linux-style string alongside; it can also render a Windows form.
#[derive(Debug)]
pub struct SystemPath {
    /// Each section of the path
    path: Vec<String>,
    /// The segments rendered as a Linux path string
    path_str: String,
}

impl Clone for SystemPath {
    /// Cloning copies both the segments and the rendered string exactly.
    fn clone(&self) -> (r: Self)
        ensures
            r.segs() == self.segs(),
            r.str_view() == self.str_view(),
    {
        let n = self.path.len();
        let mut path: Vec<String> = Vec::new();
        let mut i: usize = 0;
        while i < n
            invariant
                i <= n,
                n == self.path.len(),
                path@ == self.path@.take(i as int),
            decreases n - i,
        {
            path.push(self.path[i].clone());
            proof {
                assert(path@ =~= self.path@.take(i as int + 1));
            }
            i = i + 1;
        }
        proof {
            assert(self.path@.take(n as int) =~= self.path@);
        }
        let r = SystemPath { path, path_str: self.path_str.clone() };
        proof {
            assert(r.segs() =~= self.segs());
        }
        r
    }
}

impl SystemPath {
    /// The segment views of this path.
    pub closed spec fn segs(&self) -> Seq<Seq<char>> {
        self.path.deep_view()
    }

    /// The view of the rendered Linux-style string.
    pub closed spec fn str_view(&self) -> Seq<char> {
        self.path_str@
    }

    /// Create a new empty path; nothing is rendered yet.
    pub fn new() -> (r: SystemPath)
        ensures
            r.segs() == Seq::<Seq<char>>::empty(),
            r.str_view() == Seq::<char>::empty(),
    {
        let r = SystemPath { path: Vec::new(), path_str: String::new() };
        proof {
            assert(r.segs() =~= Seq::<Seq<char>>::empty());
        }
        r
    }

    /// Get the stored path as a string in Linux format, e.g. `/home/username`.
    pub fn get_path(&self) -> (r: String)
        ensures
            r@ == self.str_view(),
    {
        self.path_str.clone()
    }

    /// Convert the stored Linux path string to Windows by replacing `/`
    /// with `\`.
    pub fn get_windows_path(&self) -> (r: String)
        ensures
            r@ == win_of(self.str_view()),
    {
        let s = self.path_str.as_str();
        let n = s.unicode_len();
        let mut r = String::new();
        let mut i: usize = 0;
        while i < n
            invariant
                i <= n,
                n == s@.len(),
                r@ == win_of(s@).take(i as int),
            decreases n - i,
        {
            let c = s.get_char(i);
            if c == '/' {
                push_char(&mut r, '\\');
            } else {
                push_char(&mut r, c);
            }
            proof {
                assert(r@ =~= win_of(s@).take(i as int + 1));
            }
            i = i + 1;
        }
        proof {
            assert(win_of(s@).take(n as int) =~= win_of(s@));
        }
        r
    }

    /// The Windows path without a leading backslash, so that an absolute
    /// `\home\admin` stays in the same relative directory as `home\admin`.
    ///
    /// The rendered path must not be empty.
    pub fn get_windows_path_local(&self) -> (r: String)
        requires
            self.str_view().len() > 0,
        ensures
            r@ == win_local_of(self.str_view()),
    {
        let s = self.get_windows_path();
        if s.as_str().get_char(0) == '\\' {
            let n = s.as_str().unicode_len();
            let rest = s.as_str().substring_char(1, n);
            proof {
                assert(win_of(self.str_view()).subrange(1, win_of(self.str_view()).len() as int)
                    =~= win_of(self.str_view()).skip(1));
            }
            rest.to_owned()
        } else {
            s
        }
    }

    /// Rebuilds the rendered string from the segments; ran after every change
    /// to the segment list.
    fn create_path_str(&mut self)
        ensures
            final(self).path == old(self).path,
            final(self).path_str@ == path_of(old(self).segs()),
    {
        let n = self.path.len();
        if n == 0 {
            let mut root = String::new();
            push_char(&mut root, '/');
            proof {
                assert(root@ =~= seq!['/']);
            }
            self.path_str = root;
            return ;
        }
        let mut s = String::new();
        let first_is_slash = str_eq(self.path[0].as_str(), "/");
        proof {
            reveal_strlit("/");
            assert("/"@ =~= seq!['/']);
        }
        if !first_is_slash || n == 1 {
            s.append(self.path[0].as_str());
        }
        proof {
            assert(Seq::<char>::empty() + self.path[0]@ =~= self.path[0]@);
            assert(s@ == path_prefix(self.segs(), 1));
        }
        let mut i: usize = 1;
        while i < n
            invariant
                1 <= i <= n,
                n == self.path.len(),
                *self == *old(self),
                s@ == path_prefix(self.segs(), i as int),
            decreases n - i,
        {
            let ghost s0 = s@;
            push_char(&mut s, '/');
            s.append(self.path[i].as_str());
            proof {
                assert(s@ =~= s0 + seq!['/'] + self.path@[i as int]@);
            }
            i = i + 1;
        }
        self.path_str = s;
    }

    /// Pop the last segment and return it; an empty result string stands for
    /// nothing popped. A path left without segments gains the root segment
    /// `/`, so popping is how one goes to the parent directory.
    pub fn popd(&mut self) -> (r: String)
        ensures
            final(self).str_view() == path_of(final(self).segs()),
            old(self).segs().len() == 0 ==> final(self).segs() == seq![seq!['/']] && r@
                == Seq::<char>::empty(),
            old(self).segs().len() == 1 ==> final(self).segs() == seq![seq!['/']] && r@ == old(self).segs()[0],
            old(self).segs().len() > 1 ==> final(self).segs() == old(self).segs().drop_last() && r@
                == old(self).segs().last(),
    {
        let popped = self.path.pop();
        if self.path.len() == 0 {
            let mut root = String::new();
            push_char(&mut root, '/');
            proof {
                assert(root@ =~= seq!['/']);
            }
            self.path.push(root);
            proof {
                assert(self.segs() =~= seq![seq!['/']]);
            }
        }
        proof {
            if old(self).segs().len() > 1 {
                assert(self.segs() =~= old(self).segs().drop_last());
            }
        }
        self.create_path_str();
        match popped {
            Some(s) => s,
            None => String::new(),
        }
    }

    /// Checks whether a segment may be added: it must not be `/` or `.` and
    /// must hold something besides spaces.
    fn check_should_add(&self, d: &str) -> (r: bool)
        ensures
            r == seg_ok(d@),
    {
        let n = d.unicode_len();
        let mut has_other = false;
        let mut i: usize = 0;
        while i < n
            invariant
                i <= n,
                n == d@.len(),
                has_other == exists|k: int| 0 <= k < i as int && d@[k] != ' ',
            decreases n - i,
        {
            if d.get_char(i) != ' ' {
                has_other = true;
            }
            i = i + 1;
        }
        if !has_other {
            return false;
        }
        if n == 1 {
            let c = d.get_char(0);
            if c == '/' {
                proof {
                    assert(d@ =~= seq!['/']);
                }
                return false;
            }
            if c == '.' {
                proof {
                    assert(d@ =~= seq!['.']);
                }
                return false;
            }
        }
        proof {
            assert(seq!['/'].len() == 1 && seq!['.'].len() == 1);
            if d@.len() == 1 {
                assert(d@[0] != '/' && d@[0] != '.');
            }
        }
        true
    }

    /// Add a directory segment to the end of the path, descending into it;
    /// a segment that is not acceptable leaves the path unchanged.
    pub fn pushd(&mut self, d: String)
        ensures
            seg_ok(d@) ==> final(self).segs() == old(self).segs().push(d@) && final(self).str_view() == path_of(final(self).segs()),
            !seg_ok(d@) ==> *final(self) == *old(self),
    {
        if !self.check_should_add(d.as_str()) {
            return ;
        }
        self.path.push(d);
        proof {
            assert(self.segs() =~= old(self).segs().push(d@));
        }
        self.create_path_str();
    }

    /// Push a directory at the beginning of the path, as when going from
    /// `username/.ssh` to `/home/username/.ssh`; a path that starts with the
    /// root segment keeps the root in front. A segment that is not acceptable
    /// leaves the path unchanged; an acceptable one may only be added to a
    /// path that has at least one segment.
    pub fn prepd(&mut self, d: String)
        requires
            seg_ok(d@) ==> old(self).segs().len() > 0,
        ensures
            !seg_ok(d@) ==> *final(self) == *old(self),
            seg_ok(d@) && old(self).segs()[0] == seq!['/'] ==> final(self).segs() == seq![
                seq!['/'],
                d@,
            ] + old(self).segs().skip(1),
            seg_ok(d@) && old(self).segs()[0] != seq!['/'] ==> final(self).segs() == seq![d@] + old(self).segs(),
            seg_ok(d@) ==> final(self).str_view() == path_of(final(self).segs()),
    {
        if !self.check_should_add(d.as_str()) {
            return ;
        }
        let first_is_slash = str_eq(self.path[0].as_str(), "/");
        proof {
            reveal_strlit("/");
            assert("/"@ =~= seq!['/']);
        }
        if first_is_slash {
            self.path.set(0, d);
            let mut root = String::new();
            push_char(&mut root, '/');
            proof {
                assert(root@ =~= seq!['/']);
            }
            self.path.insert(0, root);
            proof {
                assert(self.segs() =~= seq![seq!['/'], d@] + old(self).segs().skip(1));
            }
        } else {
            self.path.insert(0, d);
            proof {
                assert(self.segs() =~= seq![d@] + old(self).segs());
            }
        }
        self.create_path_str();
    }

    /// Clear both the segments and the rendered string.
    pub fn clear(&mut self)
        ensures
            final(self).segs() == Seq::<Seq<char>>::empty(),
            final(self).str_view() == Seq::<char>::empty(),
    {
        self.path_str = String::new();
        self.path = Vec::new();
        proof {
            assert(self.segs() =~= Seq::<Seq<char>>::empty());
        }
    }

    /// Parse a Linux path string into segments, replacing the stored path.
    /// Returns whether re-rendering the parsed segments gives back exactly the
    /// input; an empty input only clears the segments and returns false.
    pub fn set_path(&mut self, path: String) -> (r: bool)
        ensures
            path@.len() == 0 ==> !r && final(self).segs() == Seq::<Seq<char>>::empty() && final(self).str_view() == old(self).str_view(),
            path@.len() > 0 ==> final(self).segs() == parse_segs(path@, '/') && final(self).str_view() == path_of(final(self).segs()) && r == (final(self).str_view() == path@),
    {
        self.parse_into(path, '/')
    }

    /// Parse a Windows path string (`\` separated) into segments, replacing
    /// the stored path, in the same way as [`SystemPath::set_path`].
    pub fn set_win_path(&mut self, path: String) -> (r: bool)
        ensures
            path@.len() == 0 ==> !r && final(self).segs() == Seq::<Seq<char>>::empty() && final(self).str_view() == old(self).str_view(),
            path@.len() > 0 ==> final(self).segs() == parse_segs(path@, '\\') && final(self).str_view() == path_of(final(self).segs()) && r == (final(self).str_view() == path@),
    {
        self.parse_into(path, '\\')
    }

    /// Shared parsing body of [`SystemPath::set_path`] and
    /// [`SystemPath::set_win_path`].
    fn parse_into(&mut self, path: String, sep: char) -> (r: bool)
        ensures
            path@.len() == 0 ==> !r && final(self).segs() == Seq::<Seq<char>>::empty() && final(self).str_view() == old(self).str_view(),
            path@.len() > 0 ==> final(self).segs() == parse_segs(path@, sep) && final(self).str_view() == path_of(final(self).segs()) && r == (final(self).str_view() == path@),
    {
        self.path = Vec::new();
        proof {
            assert(self.segs() =~= Seq::<Seq<char>>::empty());
        }
        let n = path.as_str().unicode_len();
        if n == 0 {
            return false;
        }
        let ghost base: Seq<Seq<char>> = if path@[0] == sep {
            seq![seq!['/']]
        } else {
            Seq::empty()
        };
        if path.as_str().get_char(0) == sep {
            let mut root = String::new();
            push_char(&mut root, '/');
            proof {
                assert(root@ =~= seq!['/']);
            }
            self.path.push(root);
            proof {
                assert(self.segs() =~= base);
            }
        } else {
            proof {
                assert(self.segs() =~= base);
            }
        }
        let pieces = split_string(path.as_str(), sep);
        let ghost pviews = pieces.deep_view();
        let m = pieces.len();
        let mut i: usize = 0;
        proof {
            assert(pviews.take(0) =~= Seq::<Seq<char>>::empty());
            assert(self.segs() =~= base + kept_segs(pviews.take(0)));
        }
        while i < m
            invariant
                i <= m,
                m == pieces.len(),
                pviews == pieces.deep_view(),
                self.segs() == base + kept_segs(pviews.take(i as int)),
            decreases m - i,
        {
            let ghost segs0 = self.segs();
            let p = pieces[i].clone();
            proof {
                assert(p@ == pviews[i as int]);
            }
            self.pushd(p);
            proof {
                assert(pviews.take(i as int + 1).drop_last() =~= pviews.take(i as int));
                assert(pviews.take(i as int + 1).last() == pviews[i as int]);
                if seg_ok(pviews[i as int]) {
                    assert(segs0.push(pviews[i as int]) =~= base + kept_segs(
                        pviews.take(i as int + 1),
                    ));
                } else {
                    assert(segs0 =~= base + kept_segs(pviews.take(i as int + 1)));
                }
            }
            i = i + 1;
        }
        proof {
            assert(pviews.take(m as int) =~= pviews);
        }
        self.create_path_str();
        let r = str_eq(self.path_str.as_str(), path.as_str());
        r
    }
}

} // verus!
