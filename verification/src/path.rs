//! Absolute, normalised paths as sequences of segments, and their text.
//!
//! The separator is `/`. The text of a path is a separator before each of
//! its segments, and the root, which has no segment, is written as a lone
//! separator: `/home/user` has the segments `home` and `user`.

use crate::error::FsError;
use vstd::prelude::*;
use vstd::string::*;

verus! {

/// A name that can stand between two separators of a normalised path: it is
/// not empty, holds no separator, and is neither `.` nor `..`.
pub open spec fn is_segment(name: Seq<char>) -> bool {
    &&& name.len() > 0
    &&& is_unbroken(name)
    &&& !(name.len() == 1 && name[0] == '.')
    &&& !(name.len() == 2 && name[0] == '.' && name[1] == '.')
}

/// No character of `name` is the separator.
pub open spec fn is_unbroken(name: Seq<char>) -> bool {
    forall|i: int| 0 <= i < name.len() ==> name[i] != '/'
}

/// Every element is a segment.
pub open spec fn all_segments(segments: Seq<Seq<char>>) -> bool {
    forall|i: int| 0 <= i < segments.len() ==> is_segment(#[trigger] segments[i])
}

/// Every segment with a separator in front of it, one after the other.
pub open spec fn joined(segments: Seq<Seq<char>>) -> Seq<char>
    decreases segments.len(),
{
    if segments.len() == 0 {
        Seq::empty()
    } else {
        joined(segments.drop_last()) + seq!['/'] + segments.last()
    }
}

/// The text of the path that leads from the root through `segments`: a lone
/// separator for the root itself.
pub open spec fn path_text(segments: Seq<Seq<char>>) -> Seq<char> {
    if segments.len() == 0 {
        seq!['/']
    } else {
        joined(segments)
    }
}

/// `text` is the text of an absolute, normalised path.
pub open spec fn is_path_text(text: Seq<char>) -> bool {
    exists|segments: Seq<Seq<char>>|
        all_segments(segments) && #[trigger] path_text(segments) == text
}

/// The views of the strings of `names`, in their order.
pub open spec fn views(names: Seq<String>) -> Seq<Seq<char>> {
    Seq::new(names.len(), |i: int| names[i]@)
}

/// The joined text read from the front: a separator, the first segment, and
/// the joined text of the others.
proof fn lemma_joined_front(segments: Seq<Seq<char>>)
    requires
        segments.len() > 0,
    ensures
        joined(segments) == seq!['/'] + segments[0] + joined(segments.drop_first()),
    decreases segments.len(),
{
    if segments.len() == 1 {
        assert(segments.drop_last() =~= Seq::<Seq<char>>::empty());
        assert(segments.drop_first() =~= Seq::<Seq<char>>::empty());
        assert(joined(segments) =~= seq!['/'] + segments[0] + joined(segments.drop_first()));
    } else {
        let front = segments.drop_last();
        lemma_joined_front(front);
        assert(front.drop_first() =~= segments.drop_first().drop_last());
        assert(joined(segments) =~= seq!['/'] + segments[0] + joined(segments.drop_first()));
    }
}

/// Two texts that are equal, each a run without separator followed by
/// nothing or by a separator, have the same run and the same rest.
proof fn lemma_run_unique(x: Seq<char>, u: Seq<char>, y: Seq<char>, v: Seq<char>)
    requires
        x + u == y + v,
        is_unbroken(x),
        is_unbroken(y),
        u.len() == 0 || u[0] == '/',
        v.len() == 0 || v[0] == '/',
    ensures
        x == y,
        u == v,
{
    assert((x + u).len() == (y + v).len());
    if x.len() < y.len() {
        assert((x + u)[x.len() as int] == u[0]);
        assert((y + v)[x.len() as int] == y[x.len() as int]);
        assert(false);
    }
    if y.len() < x.len() {
        assert((y + v)[y.len() as int] == v[0]);
        assert((x + u)[y.len() as int] == x[y.len() as int]);
        assert(false);
    }
    assert forall|k: int| 0 <= k < x.len() implies x[k] == y[k] by {
        assert((x + u)[k] == x[k]);
        assert((y + v)[k] == y[k]);
    }
    assert(x =~= y);
    assert(u.len() == v.len()) by {
        assert((x + u).len() == x.len() + u.len());
        assert((y + v).len() == y.len() + v.len());
    }
    assert forall|k: int| 0 <= k < u.len() implies u[k] == v[k] by {
        assert((x + u)[x.len() + k] == u[k]);
        assert((y + v)[y.len() + k] == v[k]);
    }
    assert(u =~= v);
}

/// Where the joined text of `a`, followed by nothing or by a separator and
/// more, is the joined text of `b`, there `a` is the beginning of `b` and what
/// follows is the joined text of the rest of `b`.
proof fn lemma_joined_prefix(a: Seq<Seq<char>>, t: Seq<char>, b: Seq<Seq<char>>)
    requires
        all_segments(a),
        all_segments(b),
        joined(a) + t == joined(b),
        t.len() == 0 || t[0] == '/',
    ensures
        a.len() <= b.len(),
        a == b.take(a.len() as int),
        t == joined(b.skip(a.len() as int)),
    decreases a.len(),
{
    if a.len() == 0 {
        assert(joined(a) + t =~= t);
        assert(b.skip(0) =~= b);
        assert(a =~= b.take(0));
    } else {
        lemma_joined_front(a);
        assert((joined(a) + t).len() > 0);
        assert(b.len() > 0);
        lemma_joined_front(b);
        let a_rest = a.drop_first();
        let b_rest = b.drop_first();
        let u = joined(a_rest) + t;
        let v = joined(b_rest);
        if a_rest.len() > 0 {
            lemma_joined_front(a_rest);
        }
        if b_rest.len() > 0 {
            lemma_joined_front(b_rest);
        }
        assert(a[0] + u == b[0] + v) by {
            let left = seq!['/'] + a[0] + joined(a_rest) + t;
            let right = seq!['/'] + b[0] + joined(b_rest);
            assert(left == right);
            assert(left.skip(1) =~= a[0] + u);
            assert(right.skip(1) =~= b[0] + v);
        }
        assert(is_segment(a[0]));
        assert(is_segment(b[0]));
        lemma_run_unique(a[0], u, b[0], v);
        assert(all_segments(a_rest)) by {
            assert forall|i: int| 0 <= i < a_rest.len() implies is_segment(
                #[trigger] a_rest[i],
            ) by {
                assert(a_rest[i] == a[i + 1]);
            }
        }
        assert(all_segments(b_rest)) by {
            assert forall|i: int| 0 <= i < b_rest.len() implies is_segment(
                #[trigger] b_rest[i],
            ) by {
                assert(b_rest[i] == b[i + 1]);
            }
        }
        lemma_joined_prefix(a_rest, t, b_rest);
        assert(a =~= b.take(a.len() as int)) by {
            assert forall|i: int| 0 <= i < a.len() implies a[i] == b.take(
                a.len() as int,
            )[i] by {
                if i > 0 {
                    assert(a[i] == a_rest[i - 1]);
                    assert(b_rest.take(a_rest.len() as int)[i - 1] == b[i]);
                }
            }
        }
        assert(b.skip(a.len() as int) =~= b_rest.skip(a_rest.len() as int));
    }
}

/// The text of a path determines its segments.
pub proof fn lemma_path_text_injective(a: Seq<Seq<char>>, b: Seq<Seq<char>>)
    requires
        all_segments(a),
        all_segments(b),
        path_text(a) == path_text(b),
    ensures
        a == b,
{
    if a.len() > 0 {
        lemma_joined_front(a);
    }
    if b.len() > 0 {
        lemma_joined_front(b);
    }
    if a.len() == 0 || b.len() == 0 {
        // The text of the root is one character long; the text of any other
        // path holds a separator and a segment that is not empty.
        if a.len() > 0 {
            assert(is_segment(a[0]));
        }
        if b.len() > 0 {
            assert(is_segment(b[0]));
        }
        assert(a.len() == 0 && b.len() == 0);
        assert(a =~= b);
    } else {
        assert(joined(a) + Seq::<char>::empty() =~= joined(b));
        lemma_joined_prefix(a, Seq::empty(), b);
        let rest = b.skip(a.len() as int);
        if rest.len() > 0 {
            lemma_joined_front(rest);
        }
        assert(b.take(b.len() as int) =~= b);
    }
}

/// The segments of the path whose text is `text`. They are determined where
/// `text` is the text of a path, and arbitrary elsewhere.
pub open spec fn segments_of(text: Seq<char>) -> Seq<Seq<char>> {
    choose|segments: Seq<Seq<char>>|
        all_segments(segments) && #[trigger] path_text(segments) == text
}

/// Reading the text of a path gives its segments back.
pub proof fn lemma_segments_of_text(segments: Seq<Seq<char>>)
    requires
        all_segments(segments),
    ensures
        is_path_text(path_text(segments)),
        segments_of(path_text(segments)) == segments,
{
    let text = path_text(segments);
    assert(all_segments(segments) && path_text(segments) == text);
    lemma_path_text_injective(segments_of(text), segments);
}

/// The text of every path begins with a separator, and only the text of the
/// root is a single character long.
proof fn lemma_path_text_shape(segments: Seq<Seq<char>>)
    requires
        all_segments(segments),
    ensures
        path_text(segments).len() >= 1,
        path_text(segments)[0] == '/',
        segments.len() > 0 ==> path_text(segments).len() >= 2,
        segments.len() == 0 ==> path_text(segments).len() == 1,
{
    if segments.len() > 0 {
        lemma_joined_front(segments);
        assert(is_segment(segments[0]));
    }
}

/// A text in which a separator is followed by a run that is no segment is
/// not the text of a path.
proof fn lemma_bad_run(text: Seq<char>, done: Seq<Seq<char>>, i: int, j: int)
    requires
        all_segments(done),
        0 <= i < j <= text.len(),
        text.len() >= 2,
        text.take(i) == joined(done),
        text[i] == '/',
        is_unbroken(text.subrange(i + 1, j)),
        j == text.len() || text[j] == '/',
        !is_segment(text.subrange(i + 1, j)),
    ensures
        !is_path_text(text),
{
    if is_path_text(text) {
        let segments = choose|segments: Seq<Seq<char>>|
            all_segments(segments) && #[trigger] path_text(segments) == text;
        lemma_path_text_shape(segments);
        let tail = text.skip(i);
        assert(text =~= text.take(i) + tail);
        lemma_joined_prefix(done, tail, segments);
        let rest = segments.skip(done.len() as int);
        assert(rest.len() > 0);
        lemma_joined_front(rest);
        let after = rest.drop_first();
        if after.len() > 0 {
            lemma_joined_front(after);
        }
        let run = text.subrange(i + 1, j);
        assert(tail.skip(1) =~= rest[0] + joined(after));
        assert(tail.skip(1) =~= run + text.skip(j));
        assert(is_segment(rest[0])) by {
            assert(rest[0] == segments[done.len() as int]);
        }
        lemma_run_unique(rest[0], joined(after), run, text.skip(j));
    }
}

/// The characters of `text`, in their order.
fn chars_of(text: &str) -> (chars: Vec<char>)
    ensures
        chars@ == text@,
{
    let mut chars: Vec<char> = Vec::new();
    for c in it: text.chars()
        invariant
            chars@ == it.seq().take(it.index() as int),
            it.seq() == text@,
    {
        chars.push(c);
    }
    chars
}

/// Whether `name` can be a segment of a path.
pub fn is_valid_segment(name: &str) -> (valid: bool)
    ensures
        valid == is_segment(name@),
{
    let chars = chars_of(name);
    let n: usize = chars.len();
    if n == 0 {
        return false;
    }
    if n == 1 && chars[0] == '.' {
        return false;
    }
    if n == 2 && chars[0] == '.' && chars[1] == '.' {
        return false;
    }
    let mut i: usize = 0;
    while i < n
        invariant
            i <= n,
            n == chars.len(),
            chars@ == name@,
            forall|k: int| 0 <= k < i ==> name@[k] != '/',
        decreases n - i,
    {
        if chars[i] == '/' {
            return false;
        }
        i += 1;
    }
    true
}

/// An absolute, normalised location in the filesystem tree: the names of the
/// directories that lead to it from the root, outermost first. The root
/// itself has no segment.
#[derive(Debug)]
pub struct AbsolutePath {
    segments: Vec<String>,
}

impl View for AbsolutePath {
    type V = Seq<Seq<char>>;

    closed spec fn view(&self) -> Seq<Seq<char>> {
        views(self.segments@)
    }
}

impl Clone for AbsolutePath {
    fn clone(&self) -> (copy: Self)
        ensures
            copy@ == self@,
    {
        let segments = self.segments.clone();
        assert(views(segments@) =~= views(self.segments@));
        AbsolutePath { segments }
    }
}

impl AbsolutePath {
    /// Every segment is a name that a normalised path can hold.
    pub open spec fn wf(&self) -> bool {
        all_segments(self@)
    }

    /// The root of the tree.
    pub fn root() -> (path: AbsolutePath)
        ensures
            path.wf(),
            path@.len() == 0,
    {
        AbsolutePath { segments: Vec::new() }
    }

    /// Reads the text of a path. The text is accepted exactly when it is the
    /// text of an absolute, normalised path: it begins at the root, and
    /// between its separators stand segments and nothing else. Whether
    /// anything exists at that place is not asked here.
    pub fn parse(text: &str) -> (parsed: Result<AbsolutePath, FsError>)
        ensures
            parsed is Ok <==> is_path_text(text@),
            parsed matches Ok(path) ==> path.wf() && path_text(path@) == text@ && path@
                == segments_of(text@),
            parsed matches Err(error) ==> error == FsError::InvalidPath,
    {
        let chars = chars_of(text);
        let n: usize = chars.len();
        if n == 0 || chars[0] != '/' {
            proof {
                if is_path_text(text@) {
                    let segments = choose|segments: Seq<Seq<char>>|
                        all_segments(segments) && #[trigger] path_text(segments) == text@;
                    lemma_path_text_shape(segments);
                }
            }
            return Err(FsError::InvalidPath);
        }
        let mut segments: Vec<String> = Vec::new();
        if n == 1 {
            proof {
                assert(path_text(views(segments@)) =~= text@);
                lemma_segments_of_text(views(segments@));
            }
            return Ok(AbsolutePath { segments });
        }
        let mut i: usize = 0;
        while i < n
            invariant
                i <= n,
                n == chars.len(),
                n >= 2,
                chars@ == text@,
                all_segments(views(segments@)),
                text@.take(i as int) == joined(views(segments@)),
                i < n ==> text@[i as int] == '/',
            decreases n - i,
        {
            let mut j: usize = i + 1;
            while j < n && chars[j] != '/'
                invariant
                    i < j <= n,
                    n == chars.len(),
                    chars@ == text@,
                    forall|k: int| i < k < j ==> text@[k] != '/',
                decreases n - j,
            {
                j += 1;
            }
            let name = text.substring_char(i + 1, j);
            if !is_valid_segment(name) {
                proof {
                    lemma_bad_run(text@, views(segments@), i as int, j as int);
                }
                return Err(FsError::InvalidPath);
            }
            let ghost before = views(segments@);
            segments.push(String::from_str(name));
            proof {
                let after = views(segments@);
                assert(after.drop_last() =~= before);
                assert(after.last() == name@);
                assert(text@.take(j as int) =~= text@.take(i as int) + seq!['/'] + name@);
                assert forall|k: int| 0 <= k < after.len() implies is_segment(
                    #[trigger] after[k],
                ) by {
                    if k < before.len() {
                        assert(after[k] == before[k]);
                    }
                }
            }
            i = j;
        }
        proof {
            assert(text@.take(n as int) =~= text@);
            assert(path_text(views(segments@)) == text@);
            lemma_segments_of_text(views(segments@));
        }
        Ok(AbsolutePath { segments })
    }

    /// The text of the path: a separator before every segment, and a lone
    /// separator for the root.
    pub fn to_string(&self) -> (text: String)
        ensures
            text@ == path_text(self@),
    {
        proof {
            reveal_strlit("/");
        }
        if self.segments.len() == 0 {
            assert("/"@ =~= seq!['/']);
            return String::from_str("/");
        }
        let mut text = String::new();
        let mut i: usize = 0;
        while i < self.segments.len()
            invariant
                i <= self.segments.len(),
                "/"@ =~= seq!['/'],
                text@ == joined(self@.take(i as int)),
            decreases self.segments.len() - i,
        {
            text.append("/");
            text.append(self.segments[i].as_str());
            proof {
                let next = self@.take(i + 1);
                assert(next.drop_last() =~= self@.take(i as int));
                assert(next.last() == self.segments[i as int]@);
            }
            i += 1;
        }
        proof {
            assert(self@.take(self.segments.len() as int) =~= self@);
        }
        text
    }

    /// Whether this is the root, which has no parent.
    pub fn is_root(&self) -> (root: bool)
        ensures
            root == (self@.len() == 0),
    {
        self.segments.len() == 0
    }

    /// Descends into the child `name`. A name that is no segment leaves the
    /// path as it is.
    pub fn push(&mut self, name: String) -> (pushed: bool)
        requires
            old(self).wf(),
        ensures
            final(self).wf(),
            pushed == is_segment(name@),
            pushed ==> final(self)@ == old(self)@.push(name@),
            !pushed ==> final(self)@ == old(self)@,
    {
        if !is_valid_segment(name.as_str()) {
            return false;
        }
        let ghost before = self@;
        self.segments.push(name);
        proof {
            assert(self@ =~= before.push(name@));
        }
        true
    }

    /// Climbs to the parent and hands out the segment that was left. The
    /// root stays as it is and hands out nothing.
    pub fn pop(&mut self) -> (left: Option<String>)
        requires
            old(self).wf(),
        ensures
            final(self).wf(),
            left is Some <==> old(self)@.len() > 0,
            left matches Some(name) ==> name@ == old(self)@.last() && final(self)@ == old(self)@
                .drop_last(),
            left is None ==> final(self)@ == old(self)@,
    {
        let ghost before = self@;
        let left = self.segments.pop();
        proof {
            if before.len() > 0 {
                assert(self@ =~= before.drop_last());
            }
        }
        left
    }

    /// The path of the child `name` of this directory, where `name` is a
    /// segment.
    pub fn join(&self, name: &str) -> (child: Option<AbsolutePath>)
        requires
            self.wf(),
        ensures
            child is Some <==> is_segment(name@),
            child matches Some(path) ==> path.wf() && path@ == self@.push(name@),
    {
        let mut path = self.clone();
        if path.push(String::from_str(name)) {
            Some(path)
        } else {
            None
        }
    }

    /// The directory that holds this one; the root has none.
    pub fn parent(&self) -> (parent: Option<AbsolutePath>)
        requires
            self.wf(),
        ensures
            parent is Some <==> self@.len() > 0,
            parent matches Some(path) ==> path.wf() && path@ == self@.drop_last(),
    {
        let mut path = self.clone();
        match path.pop() {
            Some(_) => Some(path),
            None => None,
        }
    }

    /// The last segment: the name under which the parent lists this path.
    /// The root has none.
    pub fn file_name(&self) -> (name: Option<String>)
        ensures
            name is Some <==> self@.len() > 0,
            name matches Some(last) ==> last@ == self@.last(),
    {
        let n: usize = self.segments.len();
        if n == 0 {
            None
        } else {
            Some(self.segments[n - 1].clone())
        }
    }
}

} // verus!
