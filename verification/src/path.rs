//! Paths as sequences of characters whose components are separated by `/`.
//!
//! No file system is consulted: a path is read as text. Separators and `.`
//! components at the end of a path are passed over, so `/a/b/` and `/a/b/.`
//! name what `/a/b` names. A path has a name where its last component is
//! neither `.` nor `..`; the root and the empty path have none.

use vstd::prelude::*;
use vstd::std_specs::iter::IteratorSpec;
use vstd::string::StrSliceExecFns;

verus! {

/// The character that separates the components of a path.
pub open spec fn separator() -> char {
    '/'
}

/// `a` comes before `b`, or equals it, in the lexicographic order of their
/// characters, each character ranked by its code point.
pub open spec fn lex_le(a: Seq<char>, b: Seq<char>) -> bool
    decreases a.len(),
{
    if a.len() == 0 {
        true
    } else if b.len() == 0 {
        false
    } else if a[0] != b[0] {
        (a[0] as u32) < (b[0] as u32)
    } else {
        lex_le(a.drop_first(), b.drop_first())
    }
}

/// Of any two paths, one comes before the other or equals it.
pub proof fn lemma_lex_le_total(a: Seq<char>, b: Seq<char>)
    ensures
        lex_le(a, b) || lex_le(b, a),
    decreases a.len(),
{
    if a.len() > 0 && b.len() > 0 {
        if a[0] == b[0] {
            lemma_lex_le_total(a.drop_first(), b.drop_first());
        } else {
            vstd::utf8::char_u32_cast(a[0], a[0] as u32);
            vstd::utf8::char_u32_cast(b[0], b[0] as u32);
        }
    }
}

/// The order passes along a chain: from `a` before `b` and `b` before `c`
/// follows `a` before `c`.
pub proof fn lemma_lex_le_transitive(a: Seq<char>, b: Seq<char>, c: Seq<char>)
    requires
        lex_le(a, b),
        lex_le(b, c),
    ensures
        lex_le(a, c),
    decreases a.len(),
{
    if a.len() > 0 && a[0] == b[0] && b[0] == c[0] {
        lemma_lex_le_transitive(a.drop_first(), b.drop_first(), c.drop_first());
    }
}

/// Two paths that each come before the other are the same path.
pub proof fn lemma_lex_le_antisymmetric(a: Seq<char>, b: Seq<char>)
    requires
        lex_le(a, b),
        lex_le(b, a),
    ensures
        a == b,
    decreases a.len(),
{
    if a.len() > 0 {
        lemma_lex_le_antisymmetric(a.drop_first(), b.drop_first());
        assert(a =~= seq![a[0]] + a.drop_first());
        assert(b =~= seq![b[0]] + b.drop_first());
    } else {
        assert(a =~= b);
    }
}

/// The index of the last separator in `p`, or -1 where `p` holds none.
pub open spec fn last_separator(p: Seq<char>) -> int
    decreases p.len(),
{
    if p.len() == 0 {
        -1
    } else if p.last() == separator() {
        p.len() - 1
    } else {
        last_separator(p.drop_last())
    }
}

/// What `last_separator` finds: a separator with none behind it, or nothing
/// where the path holds no separator at all.
pub proof fn lemma_last_separator(p: Seq<char>)
    ensures
        -1 <= last_separator(p) < p.len(),
        last_separator(p) >= 0 ==> p[last_separator(p)] == separator(),
        forall|i: int| last_separator(p) < i < p.len() ==> p[i] != separator(),
    decreases p.len(),
{
    if p.len() > 0 && p.last() != separator() {
        let q = p.drop_last();
        lemma_last_separator(q);
        assert forall|i: int| last_separator(p) < i < p.len() implies p[i] != separator() by {
            if i < q.len() {
                assert(p[i] == q[i]);
            }
        }
    }
}

/// The length of `p` without the separators and `.` components at its end.
/// A `.` that is all of the path stays.
pub open spec fn trimmed_len(p: Seq<char>) -> nat
    decreases p.len(),
{
    if p.len() == 0 {
        0
    } else if p.last() == separator() {
        trimmed_len(p.drop_last())
    } else if p.len() >= 2 && p.last() == '.' && p[p.len() - 2] == separator() {
        trimmed_len(p.take(p.len() - 2))
    } else {
        p.len()
    }
}

/// `p` without the separators and `.` components at its end.
pub open spec fn trimmed(p: Seq<char>) -> Seq<char> {
    p.take(trimmed_len(p) as int)
}

/// What trimming leaves: a front part of the path that is empty or ends in
/// neither a separator nor a `.` component.
pub proof fn lemma_trimmed_len(p: Seq<char>)
    ensures
        trimmed_len(p) <= p.len(),
        trimmed_len(trimmed(p)) == trimmed_len(p),
        trimmed_len(p) > 0 ==> p[trimmed_len(p) - 1] != separator(),
    decreases p.len(),
{
    if p.len() == 0 {
        assert(trimmed(p) =~= p);
    } else if p.last() == separator() {
        let q = p.drop_last();
        lemma_trimmed_len(q);
        assert(trimmed(q) =~= trimmed(p));
    } else if p.len() >= 2 && p.last() == '.' && p[p.len() - 2] == separator() {
        let q = p.take(p.len() - 2);
        lemma_trimmed_len(q);
        assert(trimmed(q) =~= trimmed(p));
    } else {
        assert(trimmed(p) =~= p);
    }
}

/// The last component of `p`: what lies between the last separator of the
/// trimmed path and its end.
pub open spec fn last_component(p: Seq<char>) -> Seq<char> {
    let t = trimmed(p);
    t.subrange(last_separator(t) + 1, t.len() as int)
}

/// A component that names something: it is not empty and is neither `.` nor
/// `..`.
pub open spec fn is_name(component: Seq<char>) -> bool {
    component.len() > 0 && component != seq!['.'] && component != seq!['.', '.']
}

/// The name of what `p` leads to: its last component, where that is a name.
pub open spec fn file_name(p: Seq<char>) -> Option<Seq<char>> {
    if is_name(last_component(p)) {
        Some(last_component(p))
    } else {
        None
    }
}

/// The path above `p`: what is in front of its name and the separator before
/// it, trimmed, and the root where nothing is left. A path without a name
/// has nothing above it, nor has a name that stands alone.
pub open spec fn parent(p: Seq<char>) -> Option<Seq<char>> {
    let t = trimmed(p);
    let k = last_separator(t);
    if file_name(p) is None || k < 0 {
        None
    } else {
        let above = trimmed(t.take(k));
        if above.len() == 0 {
            Some(seq![separator()])
        } else {
            Some(above)
        }
    }
}

/// `dir` extended by the component `name`.
pub open spec fn join(dir: Seq<char>, name: Seq<char>) -> Seq<char> {
    if dir.len() > 0 && dir.last() == separator() {
        dir + name
    } else {
        dir + seq![separator()] + name
    }
}

/// A component that can be joined to a directory and found again: it is a
/// name and holds no separator.
pub open spec fn is_component(name: Seq<char>) -> bool {
    is_name(name) && forall|i: int| 0 <= i < name.len() ==> name[i] != separator()
}

/// A directory that `parent` can give back: the root, or a path that is not
/// empty and has nothing at its end to trim.
pub open spec fn is_directory_path(dir: Seq<char>) -> bool {
    dir == seq![separator()] || (dir.len() > 0 && trimmed_len(dir) == dir.len())
}

/// Joining a component to a directory and taking the result apart again gives
/// both back.
pub proof fn lemma_join_inverse(dir: Seq<char>, name: Seq<char>)
    requires
        is_directory_path(dir),
        is_component(name),
    ensures
        file_name(join(dir, name)) == Some(name),
        parent(join(dir, name)) == Some(dir),
{
    let p = join(dir, name);
    lemma_trimmed_len(dir);
    let k = if dir == seq![separator()] {
        0int
    } else {
        dir.len() as int
    };
    assert(p.len() == k + 1 + name.len());
    assert(p[k] == separator());
    assert forall|i: int| k < i < p.len() implies p[i] == name[i - k - 1] by {}
    assert(p.last() == name.last());
    if p.last() == '.' && p[p.len() - 2] == separator() {
        assert(name.len() == 1);
        assert(name =~= seq!['.']);
    }
    assert(trimmed_len(p) == p.len());
    assert(trimmed(p) =~= p);
    lemma_last_separator(p);
    assert(last_separator(p) == k);
    assert(last_component(p) =~= name);
    if k > 0 {
        assert(p.take(k) =~= dir);
    } else {
        assert(p.take(k) =~= Seq::<char>::empty());
    }
}

/// The path `..` has no name.
pub proof fn lemma_parent_component_has_no_name()
    ensures
        file_name(seq!['.', '.']) is None,
{
    let p = seq!['.', '.'];
    assert(trimmed_len(p) == 2);
    assert(trimmed(p) =~= p);
    reveal_with_fuel(last_separator, 3);
    assert(p.drop_last() =~= seq!['.']);
    assert(p.drop_last().drop_last() =~= Seq::<char>::empty());
    assert(last_separator(p) == -1);
    assert(last_component(p) =~= p);
}

/// The text of a string that may be absent.
pub open spec fn text_view(text: Option<String>) -> Option<Seq<char>> {
    match text {
        Some(t) => Some(t@),
        None => None,
    }
}

/// A name that marks its file as hidden: it starts with a dot.
pub open spec fn is_hidden(name: Seq<char>) -> bool {
    name.len() > 0 && name[0] == '.'
}

/// Decides the lexicographic order of two strings in one pass over both.
pub fn path_le(a: &str, b: &str) -> (r: bool)
    ensures
        r == lex_le(a@, b@),
{
    let mut left = a.chars();
    let mut right = b.chars();
    loop
        invariant
            lex_le(a@, b@) == lex_le(left.remaining(), right.remaining()),
            left.decrease() is Some,
        decreases left.decrease()->0,
    {
        let x = left.next();
        let y = right.next();
        match (x, y) {
            (None, _) => {
                return true;
            },
            (Some(_), None) => {
                return false;
            },
            (Some(c), Some(d)) => {
                if c != d {
                    return (c as u32) < (d as u32);
                }
            },
        }
    }
}

/// The characters of `path`, in order.
fn chars_of(path: &str) -> (chars: Vec<char>)
    ensures
        chars@ == path@,
{
    let n = path.unicode_len();
    let mut rest = path.chars();
    let mut chars: Vec<char> = Vec::new();
    let mut i: usize = 0;
    while i < n
        invariant
            n == path@.len(),
            i <= n,
            rest.remaining() == path@.subrange(i as int, n as int),
            chars@ == path@.subrange(0, i as int),
        decreases n - i,
    {
        let c = rest.next();
        assert(c == Some(path@[i as int]));
        assert(path@.subrange(i as int, n as int).drop_first() =~= path@.subrange(
            i + 1,
            n as int,
        ));
        if let Some(c) = c {
            chars.push(c);
        }
        assert(chars@ =~= path@.subrange(0, i + 1));
        i = i + 1;
    }
    assert(path@.subrange(0, n as int) =~= path@);
    chars
}

/// The length of the first `end` characters without the separators and `.`
/// components at their end.
fn trim(chars: &Vec<char>, end: usize) -> (r: usize)
    requires
        end <= chars.len(),
    ensures
        r == trimmed_len(chars@.take(end as int)),
        r <= end,
{
    let mut e: usize = end;
    loop
        invariant
            e <= end <= chars.len(),
            trimmed_len(chars@.take(end as int)) == trimmed_len(chars@.take(e as int)),
        decreases e,
    {
        let ghost front = chars@.take(e as int);
        if e == 0 {
            return 0;
        }
        assert(front.last() == chars@[e - 1]);
        if chars[e - 1] == '/' {
            assert(front.drop_last() =~= chars@.take(e - 1));
            e = e - 1;
        } else if e >= 2 && chars[e - 1] == '.' && chars[e - 2] == '/' {
            assert(front[front.len() - 2] == chars@[e - 2]);
            assert(front.take(front.len() - 2) =~= chars@.take(e - 2));
            e = e - 2;
        } else {
            assert(e >= 2 ==> front[front.len() - 2] == chars@[e - 2]);
            return e;
        }
    }
}

/// Where the last component of the first `end` characters starts.
fn component_start(chars: &Vec<char>, end: usize) -> (r: usize)
    requires
        end <= chars.len(),
    ensures
        r == last_separator(chars@.take(end as int)) + 1,
        r <= end,
{
    let mut i: usize = end;
    while i > 0 && chars[i - 1] != '/'
        invariant
            i <= end <= chars.len(),
            last_separator(chars@.take(end as int)) == last_separator(chars@.take(i as int)),
        decreases i,
    {
        assert(chars@.take(i as int).last() == chars@[i - 1]);
        assert(chars@.take(i as int).drop_last() =~= chars@.take(i - 1));
        i = i - 1;
    }
    assert(i > 0 ==> chars@.take(i as int).last() == chars@[i - 1]);
    i
}

/// Where the last component of `chars` starts and ends, and whether it is a
/// name.
fn name_span(chars: &Vec<char>) -> (r: (usize, usize, bool))
    ensures
        r.0 <= r.1 <= chars.len(),
        r.1 == trimmed_len(chars@),
        r.0 == last_separator(trimmed(chars@)) + 1,
        chars@.subrange(r.0 as int, r.1 as int) == last_component(chars@),
        r.2 == is_name(last_component(chars@)),
{
    assert(chars@.take(chars.len() as int) =~= chars@);
    let end = trim(chars, chars.len());
    let start = component_start(chars, end);
    let ghost name = chars@.subrange(start as int, end as int);
    assert(name =~= last_component(chars@));
    let n = end - start;
    let dots = (n == 1 && chars[start] == '.') || (n == 2 && chars[start] == '.' && chars[start
        + 1] == '.');
    proof {
        if n == 1 {
            assert(name[0] == chars@[start as int]);
            assert(chars[start as int] == '.' ==> name =~= seq!['.']);
            assert(name == seq!['.'] ==> name[0] == '.');
        }
        if n == 2 {
            assert(name[0] == chars@[start as int] && name[1] == chars@[start + 1]);
            assert(chars[start as int] == '.' && chars[start + 1] == '.' ==> name =~= seq![
                '.',
                '.',
            ]);
            assert(name == seq!['.', '.'] ==> name[0] == '.' && name[1] == '.');
        }
        assert(seq!['.'].len() == 1 && seq!['.', '.'].len() == 2);
    }
    (start, end, n > 0 && !dots)
}

/// The name of what `path` leads to, where it has one.
pub fn file_name_of(path: &str) -> (name: Option<String>)
    ensures
        text_view(name) == file_name(path@),
{
    let chars = chars_of(path);
    let (start, end, named) = name_span(&chars);
    if named {
        Some(path.substring_char(start, end).to_owned())
    } else {
        None
    }
}

/// Whether `path` has a name that marks it as hidden.
pub fn is_hidden_path(path: &str) -> (r: bool)
    ensures
        r == match file_name(path@) {
            Some(name) => is_hidden(name),
            None => false,
        },
{
    let chars = chars_of(path);
    let (start, end, named) = name_span(&chars);
    named && chars[start] == '.'
}

/// The path above `path`, where there is one.
pub fn parent_of(path: &str) -> (above: Option<String>)
    ensures
        text_view(above) == parent(path@),
{
    let chars = chars_of(path);
    let (start, end, named) = name_span(&chars);
    if !named || start == 0 {
        None
    } else {
        assert(trimmed(chars@).take(start - 1) =~= chars@.take(start - 1));
        let top = trim(&chars, start - 1);
        if top == 0 {
            proof {
                reveal_strlit("/");
            }
            let root = "/".to_owned();
            assert(root@ =~= seq![separator()]);
            Some(root)
        } else {
            assert(chars@.subrange(0, top as int) =~= trimmed(chars@.take(start - 1)));
            Some(path.substring_char(0, top).to_owned())
        }
    }
}

} // verus!
