//! Names of received files and folders: what a peer offers is reduced to
//! something that is safe to create, and made unique where it lands.

use crate::text::{concat2, concat3, decimal, from_chars, numeral, to_chars};
use vstd::prelude::*;
use vstd::string::*;
use vstd::utf8::encode_utf8;

verus! {

/// Longest relative path accepted inside a folder, in bytes.
pub const MAX_REL_BYTES: usize = 4096;

/// Deepest relative path accepted inside a folder.
pub const MAX_TREE_DEPTH: usize = 64;

/// A place in the file system: a root that the host knows, and the names
/// to follow from there.
#[derive(Debug, Clone)]
pub struct Location {
    pub base: String,
    pub parts: Vec<String>,
}

/// What a [`Location`] says.
#[verifier::ext_equal]
pub struct Place {
    pub base: Seq<char>,
    pub parts: Seq<Seq<char>>,
}

impl Place {
    /// The place called `name` inside this one.
    pub open spec fn join(self, name: Seq<char>) -> Place {
        Place { base: self.base, parts: self.parts.push(name) }
    }

    /// The place reached by following `names` from this one.
    pub open spec fn follow(self, names: Seq<Seq<char>>) -> Place {
        Place { base: self.base, parts: self.parts + names }
    }

    /// Nothing at all: where a folder that was never given a place stands.
    pub open spec fn nowhere() -> Place {
        Place { base: Seq::empty(), parts: Seq::empty() }
    }
}

/// The texts of a list of strings.
pub open spec fn texts(v: Seq<String>) -> Seq<Seq<char>> {
    v.map_values(|s: String| s@)
}

/// A copy of a list of strings.
pub fn copy_texts(v: &Vec<String>) -> (r: Vec<String>)
    ensures
        texts(r@) == texts(v@),
{
    let mut r: Vec<String> = Vec::new();
    let mut i: usize = 0;
    while i < v.len()
        invariant
            i <= v@.len(),
            r@.len() == i,
            forall|k: int| 0 <= k < i ==> r@[k]@ == v@[k]@,
        decreases v@.len() - i,
    {
        r.push(v[i].clone());
        i = i + 1;
    }
    assert(texts(r@) =~= texts(v@));
    r
}

impl View for Location {
    type V = Place;

    open spec fn view(&self) -> Place {
        Place { base: self.base@, parts: texts(self.parts@) }
    }
}

impl Location {
    /// The root `base` itself.
    pub fn new(base: &str) -> (r: Location)
        ensures
            r@ == (Place { base: base@, parts: Seq::empty() }),
    {
        let r = Location { base: base.to_owned(), parts: Vec::new() };
        assert(texts(r.parts@) =~= Seq::<Seq<char>>::empty());
        r
    }

    /// A copy of this location.
    pub fn copied(&self) -> (r: Location)
        ensures
            r@ == self@,
    {
        Location { base: self.base.clone(), parts: copy_texts(&self.parts) }
    }

    /// The place called `name` inside this one.
    pub fn join(&self, name: &str) -> (r: Location)
        ensures
            r@ == self@.join(name@),
    {
        let mut parts = copy_texts(&self.parts);
        let ghost before = parts@;
        parts.push(name.to_owned());
        assert(texts(parts@) =~= texts(before).push(name@));
        Location { base: self.base.clone(), parts }
    }

    /// The place reached by following `names[..n]` from this one.
    pub fn follow(&self, names: &Vec<String>, n: usize) -> (r: Location)
        requires
            n <= names@.len(),
        ensures
            r@ == self@.follow(texts(names@).take(n as int)),
    {
        let mut parts = copy_texts(&self.parts);
        let ghost before = parts@;
        let mut i: usize = 0;
        while i < n
            invariant
                i <= n <= names@.len(),
                texts(parts@) == texts(before) + texts(names@).take(i as int),
            decreases n - i,
        {
            let ghost mid = parts@;
            parts.push(names[i].clone());
            assert(texts(parts@) =~= texts(mid).push(names@[i as int]@));
            assert(texts(names@).take(i + 1) =~= texts(names@).take(i as int).push(
                names@[i as int]@,
            ));
            i = i + 1;
        }
        Location { base: self.base.clone(), parts }
    }

    /// No place at all.
    pub fn nowhere() -> (r: Location)
        ensures
            r@ == Place::nowhere(),
    {
        let r = Location { base: String::new(), parts: Vec::new() };
        assert(texts(r.parts@) =~= Seq::<Seq<char>>::empty());
        r
    }

    /// Whether this is no place at all.
    pub fn is_nowhere(&self) -> (r: bool)
        ensures
            r == (self@ == Place::nowhere()),
    {
        let r = self.base.as_str().is_empty() && self.parts.len() == 0;
        proof {
            if r {
                assert(self.base@ =~= Seq::<char>::empty());
                assert(texts(self.parts@) =~= Seq::<Seq<char>>::empty());
            } else if self@ == Place::nowhere() {
                assert(texts(self.parts@).len() == self.parts@.len());
            }
        }
        r
    }
}

/* ------------------------------ one name ------------------------------ */

/// The characters that separate the names of a path, on any system.
pub open spec fn is_separator(c: char) -> bool {
    c == '/' || c == '\\'
}

/// What follows the last separator.
pub open spec fn base_name(s: Seq<char>) -> Seq<char>
    decreases s.len(),
{
    if s.len() == 0 {
        s
    } else if is_separator(s.last()) {
        Seq::empty()
    } else {
        base_name(s.drop_last()).push(s.last())
    }
}

/// Characters that some file system refuses in a name.
pub open spec fn is_forbidden(c: char) -> bool {
    ||| c == '<'
    ||| c == '>'
    ||| c == ':'
    ||| c == '"'
    ||| c == '/'
    ||| c == '\\'
    ||| c == '|'
    ||| c == '?'
    ||| c == '*'
    ||| (c as u32) < 0x20
}

/// A forbidden character becomes an underscore.
pub open spec fn clean_char(c: char) -> char {
    if is_forbidden(c) {
        '_'
    } else {
        c
    }
}

/// Every character of a name, made acceptable.
pub open spec fn cleaned(s: Seq<char>) -> Seq<char> {
    s.map_values(|c: char| clean_char(c))
}

/// Characters that a name may not start or end with.
pub open spec fn is_edge(c: char) -> bool {
    c == ' ' || c == '.'
}

/// A name without the edge characters it starts with.
pub open spec fn trim_front(s: Seq<char>) -> Seq<char>
    decreases s.len(),
{
    if s.len() > 0 && is_edge(s[0]) {
        trim_front(s.drop_first())
    } else {
        s
    }
}

/// A name without the edge characters it ends with.
pub open spec fn trim_back(s: Seq<char>) -> Seq<char>
    decreases s.len(),
{
    if s.len() > 0 && is_edge(s.last()) {
        trim_back(s.drop_last())
    } else {
        s
    }
}

/// What comes before the first dot.
pub open spec fn stem(s: Seq<char>) -> Seq<char>
    decreases s.len(),
{
    if s.len() == 0 || s[0] == '.' {
        Seq::empty()
    } else {
        seq![s[0]] + stem(s.drop_first())
    }
}

/// The capital of an ASCII letter; any other character as it is.
pub open spec fn upper_char(c: char) -> char {
    if 'a' <= c && c <= 'z' {
        ((c as u32) - 32) as char
    } else {
        c
    }
}

/// Every ASCII letter made a capital.
pub open spec fn upper(s: Seq<char>) -> Seq<char> {
    s.map_values(|c: char| upper_char(c))
}

/// Device names of Windows: CON, PRN, AUX, NUL, COM1..9 and LPT1..9.
pub open spec fn is_device(s: Seq<char>) -> bool {
    ||| s == seq!['C', 'O', 'N']
    ||| s == seq!['P', 'R', 'N']
    ||| s == seq!['A', 'U', 'X']
    ||| s == seq!['N', 'U', 'L']
    ||| {
        &&& s.len() == 4
        &&& s.take(3) == seq!['C', 'O', 'M'] || s.take(3) == seq!['L', 'P', 'T']
        &&& '1' <= s[3] && s[3] <= '9'
    }
}

/// Whether a name is reserved: the device rule ignores case and whatever
/// follows the first dot.
pub open spec fn is_reserved(name: Seq<char>) -> bool {
    is_device(upper(stem(name)))
}

/// The basename of an offered name, cleaned and trimmed.
pub open spec fn bare_name(offered: Seq<char>) -> Seq<char> {
    trim_back(trim_front(cleaned(base_name(offered))))
}

/// What an offered name is received as, if it can be received at all.
pub open spec fn safe_name(offered: Seq<char>) -> Option<Seq<char>> {
    let name = bare_name(offered);
    if name.len() == 0 {
        None
    } else if is_reserved(name) {
        Some(seq!['_'] + name)
    } else {
        Some(name)
    }
}

fn forbidden(c: char) -> (r: bool)
    ensures
        r == is_forbidden(c),
{
    c == '<' || c == '>' || c == ':' || c == '"' || c == '/' || c == '\\' || c == '|' || c == '?'
        || c == '*' || (c as u32) < 0x20
}

/// Where the basename starts.
fn base_start(chars: &Vec<char>) -> (start: usize)
    ensures
        start <= chars@.len(),
        chars@.skip(start as int) == base_name(chars@),
{
    let mut start: usize = chars.len();
    proof {
        assert(chars@.skip(start as int) =~= Seq::<char>::empty());
        assert(chars@.take(start as int) =~= chars@);
        assert(base_name(chars@) =~= base_name(chars@.take(start as int)) + chars@.skip(
            start as int,
        ));
    }
    while start > 0
        invariant
            start <= chars@.len(),
            base_name(chars@) == base_name(chars@.take(start as int)) + chars@.skip(start as int),
        decreases start,
    {
        let c = chars[start - 1];
        let ghost head = chars@.take(start as int);
        assert(head.last() == c);
        if c == '/' || c == '\\' {
            assert(base_name(head) =~= Seq::<char>::empty());
            assert(Seq::<char>::empty() + chars@.skip(start as int) =~= chars@.skip(start as int));
            return start;
        }
        assert(head.drop_last() =~= chars@.take(start - 1));
        assert(chars@.skip(start - 1) =~= seq![c] + chars@.skip(start as int));
        assert(base_name(head.drop_last()).push(c) + chars@.skip(start as int) =~= base_name(
            head.drop_last(),
        ) + chars@.skip(start - 1));
        start = start - 1;
    }
    assert(chars@.take(0) =~= Seq::<char>::empty());
    assert(base_name(chars@.take(0)) + chars@.skip(0) =~= chars@.skip(0));
    start
}

/// `chars[from..]` with the forbidden characters replaced.
fn clean_from(chars: &Vec<char>, from: usize) -> (r: Vec<char>)
    requires
        from <= chars@.len(),
    ensures
        r@ == cleaned(chars@.skip(from as int)),
{
    let mut r: Vec<char> = Vec::new();
    let mut i: usize = from;
    while i < chars.len()
        invariant
            from <= i <= chars@.len(),
            r@ == cleaned(chars@.subrange(from as int, i as int)),
        decreases chars@.len() - i,
    {
        let c = chars[i];
        if forbidden(c) {
            r.push('_');
        } else {
            r.push(c);
        }
        assert(cleaned(chars@.subrange(from as int, i + 1)) =~= cleaned(
            chars@.subrange(from as int, i as int),
        ).push(clean_char(c)));
        i = i + 1;
    }
    assert(chars@.subrange(from as int, chars@.len() as int) =~= chars@.skip(from as int));
    r
}

/// The bounds of a name without the edge characters around it.
fn trim_bounds(chars: &Vec<char>) -> (r: (usize, usize))
    ensures
        r.0 <= r.1 <= chars@.len(),
        chars@.subrange(r.0 as int, r.1 as int) == trim_back(trim_front(chars@)),
{
    let mut from: usize = 0;
    assert(chars@.skip(0) =~= chars@);
    while from < chars.len() && (chars[from] == ' ' || chars[from] == '.')
        invariant
            from <= chars@.len(),
            trim_front(chars@) == trim_front(chars@.skip(from as int)),
        decreases chars@.len() - from,
    {
        assert(chars@.skip(from as int).drop_first() =~= chars@.skip(from + 1));
        from = from + 1;
    }
    let mut to: usize = chars.len();
    let ghost front = chars@.skip(from as int);
    assert(front == trim_front(chars@));
    assert(chars@.subrange(from as int, to as int) =~= front);
    while to > from && (chars[to - 1] == ' ' || chars[to - 1] == '.')
        invariant
            from <= to <= chars@.len(),
            trim_back(front) == trim_back(chars@.subrange(from as int, to as int)),
        decreases to,
    {
        let ghost mid = chars@.subrange(from as int, to as int);
        assert(mid.last() == chars@[to - 1]);
        assert(mid.drop_last() =~= chars@.subrange(from as int, to - 1));
        to = to - 1;
    }
    proof {
        let mid = chars@.subrange(from as int, to as int);
        if to > from {
            assert(mid.last() == chars@[to - 1]);
        }
    }
    (from, to)
}

/// Whether a name, given as characters, is a reserved one.
fn reserved(chars: &Vec<char>) -> (r: bool)
    ensures
        r == is_reserved(chars@),
{
    let mut up: Vec<char> = Vec::new();
    let mut i: usize = 0;
    assert(chars@.skip(0) =~= chars@);
    assert(up@ + upper(stem(chars@)) =~= upper(stem(chars@)));
    while i < chars.len() && chars[i] != '.'
        invariant
            i <= chars@.len(),
            upper(stem(chars@)) == up@ + upper(stem(chars@.skip(i as int))),
        decreases chars@.len() - i,
    {
        let c = chars[i];
        let u = if 'a' <= c && c <= 'z' {
            upper_of(c)
        } else {
            c
        };
        let ghost rest = chars@.skip(i as int);
        let ghost before = up@;
        assert(rest.drop_first() =~= chars@.skip(i + 1));
        assert(upper(stem(rest)) =~= seq![u] + upper(stem(chars@.skip(i + 1))));
        up.push(u);
        assert(before + (seq![u] + upper(stem(chars@.skip(i + 1)))) =~= up@ + upper(
            stem(chars@.skip(i + 1)),
        ));
        i = i + 1;
    }
    assert(stem(chars@.skip(i as int)) =~= Seq::<char>::empty());
    assert(up@ + upper(Seq::<char>::empty()) =~= up@);
    let three = up.len() == 3 && ((up[0] == 'C' && up[1] == 'O' && up[2] == 'N') || (up[0] == 'P'
        && up[1] == 'R' && up[2] == 'N') || (up[0] == 'A' && up[1] == 'U' && up[2] == 'X') || (up[0]
        == 'N' && up[1] == 'U' && up[2] == 'L'));
    let four = up.len() == 4 && ((up[0] == 'C' && up[1] == 'O' && up[2] == 'M') || (up[0] == 'L'
        && up[1] == 'P' && up[2] == 'T')) && '1' <= up[3] && up[3] <= '9';
    proof {
        let s = up@;
        assert(three ==> (s =~= seq!['C', 'O', 'N'] || s =~= seq!['P', 'R', 'N'] || s =~= seq![
            'A',
            'U',
            'X',
        ] || s =~= seq!['N', 'U', 'L']));
        assert(four ==> (s.take(3) =~= seq!['C', 'O', 'M'] || s.take(3) =~= seq!['L', 'P', 'T']));
        if s.len() == 4 {
            assert(s.take(3)[0] == s[0] && s.take(3)[1] == s[1] && s.take(3)[2] == s[2]);
        }
    }
    three || four
}

/// The capital of a small ASCII letter.
fn upper_of(c: char) -> (r: char)
    requires
        'a' <= c && c <= 'z',
    ensures
        r == upper_char(c),
{
    let code: u8 = c as u8;
    (code - 32) as char
}

/// Reduce an offered file name to a safe basename: no directories, no
/// parent traversal, no characters that are invalid on the receiving
/// platform, no reserved device name. Both `/` and `\` separate, whatever
/// system the name was made on. `None` where nothing is left.
pub fn sanitize_name(offered: &str) -> (r: Option<String>)
    ensures
        r is Some <==> safe_name(offered@) is Some,
        r is Some ==> r->0@ == safe_name(offered@)->0,
{
    let chars = to_chars(offered);
    let start: usize = base_start(&chars);
    let clean = clean_from(&chars, start);
    let (from, to): (usize, usize) = trim_bounds(&clean);
    if from == to {
        return None;
    }
    let name = from_chars(&clean, from, to);
    let name_chars = to_chars(name.as_str());
    if reserved(&name_chars) {
        let r = concat2("_", name.as_str());
        proof {
            reveal_strlit("_");
            assert("_"@ =~= seq!['_']);
        }
        Some(r)
    } else {
        Some(name)
    }
}

/* --------------------------- paths in a folder --------------------------- */

/// The names of a path, split at every separator. Two separators in a row
/// leave an empty name between them, and so does one at either end.
pub open spec fn components(s: Seq<char>) -> Seq<Seq<char>>
    decreases s.len(),
{
    if s.len() == 0 {
        seq![Seq::empty()]
    } else if is_separator(s.last()) {
        components(s.drop_last()).push(Seq::empty())
    } else {
        let front = components(s.drop_last());
        front.drop_last().push(front.last().push(s.last()))
    }
}

/// The safe form of every name of a path, where each has one.
pub open spec fn safe_names(names: Seq<Seq<char>>) -> Seq<Seq<char>> {
    names.map_values(|n: Seq<char>| safe_name(n)->0)
}

/// Whether a relative path can be received: not empty, not too long, not
/// too deep, and each of its names has a safe form.
pub open spec fn acceptable_rel(rel: Seq<char>) -> bool {
    &&& rel.len() > 0
    &&& encode_utf8(rel).len() <= MAX_REL_BYTES
    &&& components(rel).len() <= MAX_TREE_DEPTH
    &&& forall|i: int|
        0 <= i < components(rel).len() ==> safe_name(#[trigger] components(rel)[i]) is Some
}

/// What a relative path inside a folder is received as: the names to follow
/// from the folder, or nothing if the path must be refused.
pub open spec fn safe_rel(rel: Seq<char>) -> Option<Seq<Seq<char>>> {
    if acceptable_rel(rel) {
        Some(safe_names(components(rel)))
    } else {
        None
    }
}

/// Split a path at every separator.
fn split_path(rel: &str) -> (r: Vec<String>)
    ensures
        texts(r@) == components(rel@),
{
    let chars = to_chars(rel);
    let mut done: Vec<String> = Vec::new();
    let mut cur = String::new();
    let mut i: usize = 0;
    proof {
        assert(chars@.take(0) =~= Seq::<char>::empty());
        assert(texts(done@).push(cur@) =~= seq![Seq::<char>::empty()]);
    }
    while i < chars.len()
        invariant
            i <= chars@.len(),
            texts(done@).push(cur@) == components(chars@.take(i as int)),
        decreases chars@.len() - i,
    {
        let c = chars[i];
        let ghost head = chars@.take(i + 1);
        let ghost before = done@;
        let ghost front = texts(done@).push(cur@);
        assert(head.last() == c);
        assert(head.drop_last() =~= chars@.take(i as int));
        if c == '/' || c == '\\' {
            done.push(cur);
            assert(texts(done@) =~= front);
            cur = String::new();
        } else {
            assert(front.drop_last() =~= texts(before));
            cur.push(c);
        }
        i = i + 1;
    }
    assert(chars@.take(i as int) =~= chars@);
    let ghost front = texts(done@).push(cur@);
    done.push(cur);
    assert(texts(done@) =~= front);
    done
}

/// A path relative to a folder root, reduced to names that are safe to
/// follow from the staging root: every name is sanitized like a file name
/// (which rejects `.`, `..` and empty names outright), nothing absolute,
/// bounded in length and depth. `None` means that the entry must be
/// refused.
pub fn sanitize_rel_path(rel: &str) -> (r: Option<Vec<String>>)
    ensures
        r is Some <==> safe_rel(rel@) is Some,
        r is Some ==> texts(r->0@) == safe_rel(rel@)->0,
{
    if rel.is_empty() || rel.as_bytes().len() > MAX_REL_BYTES {
        return None;
    }
    let names = split_path(rel);
    let ghost all = components(rel@);
    if names.len() > MAX_TREE_DEPTH {
        assert(texts(names@).len() == names@.len());
        return None;
    }
    let mut out: Vec<String> = Vec::new();
    let mut i: usize = 0;
    assert(texts(out@) =~= safe_names(all.take(0)));
    while i < names.len()
        invariant
            i <= names@.len(),
            all == texts(names@),
            all == components(rel@),
            texts(out@) == safe_names(all.take(i as int)),
            forall|k: int| 0 <= k < i ==> safe_name(#[trigger] all[k]) is Some,
        decreases names@.len() - i,
    {
        assert(all[i as int] == names@[i as int]@);
        match sanitize_name(names[i].as_str()) {
            Some(n) => {
                let ghost before = out@;
                out.push(n);
                assert(texts(out@) =~= texts(before).push(safe_name(all[i as int])->0));
                assert(safe_names(all.take(i + 1)) =~= safe_names(all.take(i as int)).push(
                    safe_name(all[i as int])->0,
                ));
            },
            None => {
                return None;
            },
        }
        i = i + 1;
    }
    assert(all.take(i as int) =~= all);
    Some(out)
}

/* ------------------------------ unique names ------------------------------ */

/// Position of the last dot, or -1.
pub open spec fn last_dot(s: Seq<char>) -> int
    decreases s.len(),
{
    if s.len() == 0 {
        -1
    } else if s.last() == '.' {
        s.len() - 1
    } else {
        last_dot(s.drop_last())
    }
}

/// A file name cut before its extension. A dot at the very start begins no
/// extension.
pub open spec fn split_extension(name: Seq<char>) -> (Seq<char>, Seq<char>) {
    if last_dot(name) > 0 {
        (name.take(last_dot(name)), name.skip(last_dot(name)))
    } else {
        (name, Seq::empty())
    }
}

/// ` (i)`
pub open spec fn number_mark(i: nat) -> Seq<char> {
    seq![' ', '('] + numeral(i) + seq![')']
}

/// The `i`-th name to try for a file: `name.ext`, then `name (1).ext`,
/// `name (2).ext` and so on.
pub open spec fn numbered_file(name: Seq<char>, i: nat) -> Seq<char> {
    if i == 0 {
        name
    } else {
        split_extension(name).0 + number_mark(i) + split_extension(name).1
    }
}

/// The `i`-th name to try for a directory, where a dot is no extension
/// separator: `my.photos`, then `my.photos (1)` and so on.
pub open spec fn numbered_dir(name: Seq<char>, i: nat) -> Seq<char> {
    if i == 0 {
        name
    } else {
        name + number_mark(i)
    }
}

/// The file system answered `b` when it was asked whether `p` is taken.
pub open spec fn answered<F: Fn(&Location) -> bool>(taken: F, p: Place, b: bool) -> bool {
    exists|l: Location| #[trigger] l@ == p && call_ensures(taken, (&l,), b)
}

/// ` (i)` as a string.
fn mark(i: u32) -> (r: String)
    ensures
        r@ == number_mark(i as nat),
{
    let r = concat3(" (", decimal(i as u64).as_str(), ")");
    proof {
        reveal_strlit(" (");
        reveal_strlit(")");
        assert(" ("@ =~= seq![' ', '(']);
        assert(")"@ =~= seq![')']);
    }
    r
}

/// Cut a file name before its extension.
fn cut_extension(name: &str) -> (r: (String, String))
    ensures
        (r.0@, r.1@) == split_extension(name@),
{
    let chars = to_chars(name);
    let mut end: usize = chars.len();
    assert(chars@.take(end as int) =~= chars@);
    while end > 0 && chars[end - 1] != '.'
        invariant
            end <= chars@.len(),
            last_dot(chars@) == last_dot(chars@.take(end as int)),
        decreases end,
    {
        let ghost head = chars@.take(end as int);
        assert(head.last() == chars@[end - 1]);
        assert(head.drop_last() =~= chars@.take(end - 1));
        end = end - 1;
    }
    proof {
        if end > 0 {
            assert(chars@.take(end as int).last() == '.');
        }
        assert(last_dot(chars@) == end - 1);
    }
    if end > 1 {
        assert(chars@.subrange(0, end - 1) =~= chars@.take(end - 1));
        assert(chars@.subrange(end - 1, chars@.len() as int) =~= chars@.skip(end - 1));
        (from_chars(&chars, 0, end - 1), from_chars(&chars, end - 1, chars.len()))
    } else {
        (name.to_owned(), String::new())
    }
}

/// Where a file called `name` can be put into `dir` without touching what is
/// there: the first of `name.ext`, `name (1).ext`, `name (2).ext`, ... that
/// is not taken. `None` if every one of them is.
pub fn unique_path<F: Fn(&Location) -> bool>(dir: &Location, name: &str, taken: F) -> (r: Option<
    Location,
>)
    requires
        forall|l: &Location| call_requires(taken, (l,)),
    ensures
        r is Some ==> call_ensures(taken, (&r->0,), false) && exists|i: nat|
            i <= u32::MAX && #[trigger] dir@.join(numbered_file(name@, i)) == r->0@ && forall|j: nat|
                j < i ==> answered(taken, #[trigger] dir@.join(numbered_file(name@, j)), true),
        r is None ==> forall|j: nat|
            j <= u32::MAX ==> answered(taken, #[trigger] dir@.join(numbered_file(name@, j)), true),
{
    let first = dir.join(name);
    assert(first@ == dir@.join(numbered_file(name@, 0)));
    if !taken(&first) {
        return Some(first);
    }
    assert(answered(taken, first@, true));
    let (front, ext): (String, String) = cut_extension(name);
    let mut i: u32 = 1;
    loop
        invariant
            1 <= i,
            forall|l: &Location| call_requires(taken, (l,)),
            (front@, ext@) == split_extension(name@),
            forall|j: nat|
                j < i ==> answered(taken, #[trigger] dir@.join(numbered_file(name@, j)), true),
        decreases u32::MAX - i,
    {
        let candidate = dir.join(
            concat3(front.as_str(), mark(i).as_str(), ext.as_str()).as_str(),
        );
        assert(candidate@ == dir@.join(numbered_file(name@, i as nat)));
        if !taken(&candidate) {
            return Some(candidate);
        }
        assert(answered(taken, candidate@, true));
        if i == u32::MAX {
            return None;
        }
        i = i + 1;
    }
}

/// Like [`unique_path`] but for a directory name, where a dot is not an
/// extension separator.
pub fn unique_dir_path<F: Fn(&Location) -> bool>(dir: &Location, name: &str, taken: F) -> (r: Option<
    Location,
>)
    requires
        forall|l: &Location| call_requires(taken, (l,)),
    ensures
        r is Some ==> call_ensures(taken, (&r->0,), false) && exists|i: nat|
            i <= u32::MAX && #[trigger] dir@.join(numbered_dir(name@, i)) == r->0@ && forall|j: nat|
                j < i ==> answered(taken, #[trigger] dir@.join(numbered_dir(name@, j)), true),
        r is None ==> forall|j: nat|
            j <= u32::MAX ==> answered(taken, #[trigger] dir@.join(numbered_dir(name@, j)), true),
{
    let first = dir.join(name);
    assert(first@ == dir@.join(numbered_dir(name@, 0)));
    if !taken(&first) {
        return Some(first);
    }
    assert(answered(taken, first@, true));
    let mut i: u32 = 1;
    loop
        invariant
            1 <= i,
            forall|l: &Location| call_requires(taken, (l,)),
            forall|j: nat|
                j < i ==> answered(taken, #[trigger] dir@.join(numbered_dir(name@, j)), true),
        decreases u32::MAX - i,
    {
        let candidate = dir.join(concat2(name, mark(i).as_str()).as_str());
        assert(candidate@ == dir@.join(numbered_dir(name@, i as nat)));
        if !taken(&candidate) {
            return Some(candidate);
        }
        assert(answered(taken, candidate@, true));
        if i == u32::MAX {
            return None;
        }
        i = i + 1;
    }
}

/// How the part file of a transfer is called until the file is complete.
pub open spec fn part_name(name: Seq<char>) -> Seq<char> {
    name + ".vylopart"@
}

/// Where an accepted file is received: the place it will end up at, and the
/// part file that it is written to until then. Both are free, so neither an
/// earlier file of that name nor one that merely looks like a part file is
/// touched. `None` if no number makes one of the names free.
pub fn receive_paths<F: Fn(&Location) -> bool>(dir: &Location, name: &str, taken: F) -> (r: Option<
    (Location, Location),
>)
    requires
        forall|l: &Location| call_requires(taken, (l,)),
    ensures
        r is Some ==> {
            &&& call_ensures(taken, (&(r->0).0,), false)
            &&& call_ensures(taken, (&(r->0).1,), false)
            &&& exists|i: nat, j: nat|
                {
                    &&& i <= u32::MAX && j <= u32::MAX
                    &&& #[trigger] dir@.join(numbered_file(name@, i)) == (r->0).0@
                    &&& #[trigger] dir@.join(numbered_file(part_name(numbered_file(name@, i)), j))
                        == (r->0).1@
                    &&& forall|k: nat|
                        k < i ==> answered(taken, #[trigger] dir@.join(numbered_file(name@, k)), true)
                    &&& forall|k: nat|
                        k < j ==> answered(
                            taken,
                            #[trigger] dir@.join(
                                numbered_file(part_name(numbered_file(name@, i)), k),
                            ),
                            true,
                        )
                }
        },
        r is None ==> {
            ||| forall|k: nat|
                k <= u32::MAX ==> answered(taken, #[trigger] dir@.join(numbered_file(name@, k)), true)
            ||| exists|i: nat|
                {
                    &&& i <= u32::MAX
                    &&& answered(taken, #[trigger] dir@.join(numbered_file(name@, i)), false)
                    &&& forall|k: nat|
                        k < i ==> answered(taken, #[trigger] dir@.join(numbered_file(name@, k)), true)
                    &&& forall|k: nat|
                        k <= u32::MAX ==> answered(
                            taken,
                            #[trigger] dir@.join(
                                numbered_file(part_name(numbered_file(name@, i)), k),
                            ),
                            true,
                        )
                }
        },
{
    let last = match unique_path(dir, name, &taken) {
        Some(l) => l,
        None => {
            return None;
        },
    };
    let ghost i = choose|i: nat|
        i <= u32::MAX && #[trigger] dir@.join(numbered_file(name@, i)) == last@ && forall|j: nat|
            j < i ==> answered(taken, #[trigger] dir@.join(numbered_file(name@, j)), true);
    assert(last@.parts.last() == numbered_file(name@, i));
    assert(texts(last.parts@).len() == last.parts@.len());
    let part = concat2(last.parts[last.parts.len() - 1].as_str(), ".vylopart");
    assert(part@ == part_name(numbered_file(name@, i)));
    assert(answered(taken, dir@.join(numbered_file(name@, i)), false));
    match unique_path(dir, part.as_str(), &taken) {
        Some(p) => Some((last, p)),
        None => None,
    }
}

/// Name of the staging directory for a standalone folder transfer.
pub fn tree_staging_name(tree: u64) -> (r: String)
    ensures
        r@ == ".vylo-tree-"@ + numeral(tree as nat),
{
    concat2(".vylo-tree-", decimal(tree).as_str())
}

/// Name of the staging directory for a cross-machine drag.
pub fn drag_staging_name(drag: u64) -> (r: String)
    ensures
        r@ == ".vylo-drag-"@ + numeral(drag as nat),
{
    concat2(".vylo-drag-", decimal(drag).as_str())
}

/// Whether `s` starts with `prefix`.
pub fn starts_with(s: &str, prefix: &str) -> (r: bool)
    ensures
        r == prefix@.is_prefix_of(s@),
{
    let a = to_chars(s);
    let b = to_chars(prefix);
    if b.len() > a.len() {
        return false;
    }
    let mut i: usize = 0;
    while i < b.len()
        invariant
            i <= b@.len() <= a@.len(),
            a@ == s@,
            b@ == prefix@,
            forall|k: int| 0 <= k < i ==> a@[k] == b@[k],
        decreases b@.len() - i,
    {
        if a[i] != b[i] {
            assert(a@.subrange(0, b@.len() as int)[i as int] == a@[i as int]);
            return false;
        }
        i = i + 1;
    }
    assert(a@.subrange(0, b@.len() as int) =~= b@);
    true
}

/// Whether a name is that of a staging directory.
pub open spec fn is_staging(name: Seq<char>) -> bool {
    ".vylo-drag-"@.is_prefix_of(name) || ".vylo-tree-"@.is_prefix_of(name)
}

/// Whether a directory entry is a staging directory that an earlier run left
/// behind.
pub fn is_stale_staging(name: &str) -> (r: bool)
    ensures
        r == (".vylo-drag-"@.is_prefix_of(name@) || ".vylo-tree-"@.is_prefix_of(name@)),
        r == is_staging(name@),
{
    starts_with(name, ".vylo-drag-") || starts_with(name, ".vylo-tree-")
}

/* --------------------------------- laws --------------------------------- */

/// No character of `s` is one that some file system refuses.
pub open spec fn all_allowed(s: Seq<char>) -> bool {
    forall|i: int| 0 <= i < s.len() ==> !is_forbidden(#[trigger] s[i])
}

/// A name that can be created on every system and names nothing but an entry
/// of the directory it is created in.
pub open spec fn is_safe(name: Seq<char>) -> bool {
    &&& name.len() > 0
    &&& all_allowed(name)
    &&& !is_edge(name[0])
    &&& !is_edge(name.last())
    &&& !is_reserved(name)
}

proof fn trim_front_cuts(s: Seq<char>)
    ensures
        trim_front(s).len() <= s.len(),
        trim_front(s) == s.skip(s.len() - trim_front(s).len()),
        trim_front(s).len() > 0 ==> !is_edge(trim_front(s)[0]),
    decreases s.len(),
{
    if s.len() > 0 && is_edge(s[0]) {
        trim_front_cuts(s.drop_first());
        let t = trim_front(s.drop_first());
        assert(s.drop_first().skip(s.drop_first().len() - t.len()) =~= s.skip(s.len() - t.len()));
    } else {
        assert(s.skip(0) =~= s);
    }
}

proof fn trim_back_cuts(s: Seq<char>)
    ensures
        trim_back(s).len() <= s.len(),
        trim_back(s) == s.take(trim_back(s).len() as int),
        trim_back(s).len() > 0 ==> !is_edge(trim_back(s).last()),
    decreases s.len(),
{
    if s.len() > 0 && is_edge(s.last()) {
        trim_back_cuts(s.drop_last());
        let t = trim_back(s.drop_last());
        assert(s.drop_last().take(t.len() as int) =~= s.take(t.len() as int));
    } else {
        assert(s.take(s.len() as int) =~= s);
    }
}

/// Whatever a peer offers, what it is received as is a safe name: nothing in
/// it leads out of the directory, and no system refuses it.
pub proof fn received_names_are_safe(offered: Seq<char>)
    ensures
        safe_name(offered) is Some ==> is_safe(safe_name(offered)->0),
{
    let c = cleaned(base_name(offered));
    let f = trim_front(c);
    let n = bare_name(offered);
    trim_front_cuts(c);
    trim_back_cuts(f);
    assert(all_allowed(c)) by {
        assert forall|i: int| 0 <= i < c.len() implies !is_forbidden(#[trigger] c[i]) by {
            assert(c[i] == clean_char(base_name(offered)[i]));
        }
    }
    assert forall|i: int| 0 <= i < n.len() implies !is_forbidden(#[trigger] n[i]) by {
        assert(n[i] == f[i]);
        assert(f[i] == c[c.len() - f.len() + i]);
    }
    if n.len() > 0 {
        assert(n[0] == f[0]);
        let u = seq!['_'] + n;
        assert(u[0] == '_');
        assert forall|i: int| 0 <= i < u.len() implies !is_forbidden(#[trigger] u[i]) by {
            if i > 0 {
                assert(u[i] == n[i - 1]);
            }
        }
        assert(u.last() == n.last());
        assert(stem(u)[0] == '_');
        assert(upper(stem(u))[0] == '_');
        assert(!is_reserved(u)) by {
            let d = upper(stem(u));
            if is_device(d) {
                if d.len() == 4 {
                    assert(d.take(3)[0] == '_');
                }
            }
        }
    }
}

proof fn base_name_without_separators(s: Seq<char>)
    requires
        forall|i: int| 0 <= i < s.len() ==> !is_separator(#[trigger] s[i]),
    ensures
        base_name(s) == s,
    decreases s.len(),
{
    if s.len() > 0 {
        assert forall|i: int| 0 <= i < s.drop_last().len() implies !is_separator(
            #[trigger] s.drop_last()[i],
        ) by {
            assert(s.drop_last()[i] == s[i]);
        }
        base_name_without_separators(s.drop_last());
        assert(s.drop_last().push(s.last()) =~= s);
    }
}

/// A safe name is received as it is.
pub proof fn safe_names_are_kept(name: Seq<char>)
    requires
        is_safe(name),
    ensures
        safe_name(name) == Some(name),
{
    assert forall|i: int| 0 <= i < name.len() implies !is_separator(#[trigger] name[i]) by {
        assert(!is_forbidden(name[i]));
    }
    base_name_without_separators(name);
    assert(cleaned(name) =~= name);
}

/// Receiving is settled after one step: what a name was received as is
/// received as itself.
pub proof fn sanitizing_twice_changes_nothing(offered: Seq<char>)
    requires
        safe_name(offered) is Some,
    ensures
        safe_name(safe_name(offered)->0) == safe_name(offered),
{
    received_names_are_safe(offered);
    safe_names_are_kept(safe_name(offered)->0);
}

/// A path that is accepted inside a folder stays inside it: it is a bounded,
/// non-empty row of safe names, none of which is `.` or `..` or holds a
/// separator.
pub proof fn accepted_paths_stay_inside(rel: Seq<char>)
    requires
        safe_rel(rel) is Some,
    ensures
        1 <= safe_rel(rel)->0.len() <= MAX_TREE_DEPTH,
        forall|i: int|
            0 <= i < safe_rel(rel)->0.len() ==> {
                let name = #[trigger] safe_rel(rel)->0[i];
                &&& is_safe(name)
                &&& name != seq!['.']
                &&& name != seq!['.', '.']
                &&& forall|k: int| 0 <= k < name.len() ==> !is_separator(#[trigger] name[k])
            },
{
    components_are_not_empty(rel);
    assert forall|i: int| 0 <= i < safe_rel(rel)->0.len() implies {
        let name = #[trigger] safe_rel(rel)->0[i];
        &&& is_safe(name)
        &&& name != seq!['.']
        &&& name != seq!['.', '.']
        &&& forall|k: int| 0 <= k < name.len() ==> !is_separator(#[trigger] name[k])
    } by {
        let name = safe_rel(rel)->0[i];
        assert(safe_name(components(rel)[i]) is Some);
        received_names_are_safe(components(rel)[i]);
        assert(is_safe(name));
        assert(seq!['.'][0] == '.');
        assert(seq!['.', '.'][0] == '.');
        assert forall|k: int| 0 <= k < name.len() implies !is_separator(#[trigger] name[k]) by {
            assert(!is_forbidden(name[k]));
        }
    }
}

/// A path whose names are all safe is received as it is, within the bounds
/// on length and depth.
pub proof fn safe_paths_are_kept(rel: Seq<char>)
    requires
        rel.len() > 0,
        encode_utf8(rel).len() <= MAX_REL_BYTES,
        components(rel).len() <= MAX_TREE_DEPTH,
        forall|i: int| 0 <= i < components(rel).len() ==> is_safe(#[trigger] components(rel)[i]),
    ensures
        safe_rel(rel) == Some(components(rel)),
{
    let names = components(rel);
    assert forall|i: int| 0 <= i < names.len() implies safe_name(#[trigger] names[i]) == Some(
        names[i],
    ) by {
        safe_names_are_kept(names[i]);
    }
    assert(safe_names(names) =~= names);
}

/// A name without separators is one component, and adds one to a path it is
/// appended to.
pub proof fn names_are_components(dir: Seq<char>, name: Seq<char>)
    requires
        forall|i: int| 0 <= i < name.len() ==> !is_separator(#[trigger] name[i]),
    ensures
        components(name) == seq![name],
        components(dir + seq!['/'] + name) == components(dir).push(name),
    decreases name.len(),
{
    let path = dir + seq!['/'] + name;
    components_are_not_empty(dir);
    if name.len() == 0 {
        assert(path.last() == '/');
        assert(path.drop_last() =~= dir);
        assert(name =~= Seq::<char>::empty());
    } else {
        let front = name.drop_last();
        assert forall|i: int| 0 <= i < front.len() implies !is_separator(#[trigger] front[i]) by {
            assert(front[i] == name[i]);
        }
        names_are_components(dir, front);
        assert(path.drop_last() =~= dir + seq!['/'] + front);
        assert(path.last() == name.last());
        assert(front.push(name.last()) =~= name);
        assert(seq![front].drop_last().push(name) =~= seq![name]);
        assert(components(dir).push(front).drop_last().push(name) =~= components(dir).push(name));
    }
}

proof fn components_are_not_empty(s: Seq<char>)
    ensures
        components(s).len() >= 1,
    decreases s.len(),
{
    if s.len() > 0 {
        components_are_not_empty(s.drop_last());
    }
}

/// No two of the names tried for a file are the same.
pub proof fn numbered_files_differ(name: Seq<char>, i: nat, j: nat)
    requires
        i != j,
    ensures
        numbered_file(name, i) != numbered_file(name, j),
{
    let (front, ext) = split_extension(name);
    assert(last_dot(name) < name.len()) by {
        last_dot_is_inside(name);
    }
    assert(name =~= front + ext);
    marks_differ(front, ext, i, j);
}

/// No two of the names tried for a directory are the same.
pub proof fn numbered_dirs_differ(name: Seq<char>, i: nat, j: nat)
    requires
        i != j,
    ensures
        numbered_dir(name, i) != numbered_dir(name, j),
{
    let none = Seq::<char>::empty();
    assert(name + none =~= name);
    assert(name + number_mark(i) + none =~= name + number_mark(i));
    assert(name + number_mark(j) + none =~= name + number_mark(j));
    marks_differ(name, none, i, j);
}

proof fn last_dot_is_inside(s: Seq<char>)
    ensures
        -1 <= last_dot(s) < s.len(),
    decreases s.len(),
{
    if s.len() > 0 {
        last_dot_is_inside(s.drop_last());
    }
}

proof fn marks_differ(front: Seq<char>, ext: Seq<char>, i: nat, j: nat)
    requires
        i != j,
    ensures
        front + number_mark(i) + ext != front + number_mark(j) + ext,
        front + ext != front + number_mark(i) + ext,
        front + ext != front + number_mark(j) + ext,
{
    let a = front + number_mark(i) + ext;
    let b = front + number_mark(j) + ext;
    assert((front + ext).len() < a.len());
    assert((front + ext).len() < b.len());
    if a == b {
        assert(numeral(i).len() == numeral(j).len());
        let at = front.len() + 2;
        assert(a.subrange(at as int, (at + numeral(i).len()) as int) =~= numeral(i));
        assert(b.subrange(at as int, (at + numeral(j).len()) as int) =~= numeral(j));
        crate::text::numerals_are_distinct(i, j);
    }
}

/* ------------------------------ what names become ------------------------------ */

/// Nothing but spaces and dots.
pub open spec fn all_gaps(s: Seq<char>) -> bool {
    forall|i: int| 0 <= i < s.len() ==> (#[trigger] s[i]) == ' ' || s[i] == '.'
}

/// Neither `/` nor `\` in it.
pub open spec fn in_one_piece(s: Seq<char>) -> bool {
    forall|i: int| 0 <= i < s.len() ==> (#[trigger] s[i]) != '/' && s[i] != '\\'
}

/// Nothing, or something that ends in `/` or `\`.
pub open spec fn leads_in(dir: Seq<char>) -> bool {
    dir.len() > 0 ==> dir.last() == '/' || dir.last() == '\\'
}

/// What a character of a name is received as.
pub open spec fn received_char(c: char) -> char {
    if c == '<' || c == '>' || c == ':' || c == '"' || c == '/' || c == '\\' || c == '|' || c == '?'
        || c == '*' || (c as u32) < 32 {
        '_'
    } else {
        c
    }
}

/// `s` is `word`, in whatever case; `word` is in capitals.
pub open spec fn spells(s: Seq<char>, word: Seq<char>) -> bool {
    s.len() == word.len() && forall|i: int|
        0 <= i < s.len() ==> (#[trigger] s[i]) == word[i] || s[i] as int == word[i] as int + 32
}

/// A device of Windows, in whatever case.
pub open spec fn names_a_device(s: Seq<char>) -> bool {
    ||| spells(s, seq!['C', 'O', 'N'])
    ||| spells(s, seq!['P', 'R', 'N'])
    ||| spells(s, seq!['A', 'U', 'X'])
    ||| spells(s, seq!['N', 'U', 'L'])
    ||| {
        &&& s.len() == 4
        &&& '1' <= s[3] <= '9'
        &&& spells(s.take(3), seq!['C', 'O', 'M']) || spells(s.take(3), seq!['L', 'P', 'T'])
    }
}

/// What is before the first dot is `front`.
pub open spec fn begins_with_stem(name: Seq<char>, front: Seq<char>) -> bool {
    &&& front.len() <= name.len()
    &&& name.take(front.len() as int) == front
    &&& forall|i: int| 0 <= i < front.len() ==> (#[trigger] front[i]) != '.'
    &&& front.len() < name.len() ==> name[front.len() as int] == '.'
}

proof fn the_last_part_is_the_base(dir: Seq<char>, base: Seq<char>)
    requires
        leads_in(dir),
        in_one_piece(base),
    ensures
        base_name(dir + base) == base,
    decreases base.len(),
{
    if base.len() == 0 {
        assert(dir + base =~= dir);
        assert(base =~= Seq::<char>::empty());
    } else {
        let front = base.drop_last();
        assert forall|i: int| 0 <= i < front.len() implies (#[trigger] front[i]) != '/' && front[i]
            != '\\' by {
            assert(front[i] == base[i]);
        }
        the_last_part_is_the_base(dir, front);
        assert((dir + base).drop_last() =~= dir + front);
        assert((dir + base).last() == base[base.len() - 1]);
        assert(front.push(base.last()) =~= base);
    }
}

proof fn gaps_in_front_are_cut(lead: Seq<char>, rest: Seq<char>)
    requires
        all_gaps(lead),
    ensures
        trim_front(lead + rest) == trim_front(rest),
    decreases lead.len(),
{
    if lead.len() == 0 {
        assert(lead + rest =~= rest);
    } else {
        let less = lead.drop_first();
        assert((lead + rest)[0] == lead[0]);
        assert((lead + rest).drop_first() =~= less + rest);
        assert forall|i: int| 0 <= i < less.len() implies (#[trigger] less[i]) == ' ' || less[i]
            == '.' by {
            assert(less[i] == lead[i + 1]);
        }
        gaps_in_front_are_cut(less, rest);
    }
}

proof fn gaps_behind_are_cut(rest: Seq<char>, tail: Seq<char>)
    requires
        all_gaps(tail),
    ensures
        trim_back(rest + tail) == trim_back(rest),
    decreases tail.len(),
{
    if tail.len() == 0 {
        assert(rest + tail =~= rest);
    } else {
        let less = tail.drop_last();
        assert((rest + tail).last() == tail[tail.len() - 1]);
        assert((rest + tail).drop_last() =~= rest + less);
        assert forall|i: int| 0 <= i < less.len() implies (#[trigger] less[i]) == ' ' || less[i]
            == '.' by {
            assert(less[i] == tail[i]);
        }
        gaps_behind_are_cut(rest, less);
    }
}

proof fn gaps_stay_gaps(s: Seq<char>)
    requires
        all_gaps(s),
    ensures
        cleaned(s) == s,
{
    assert(cleaned(s) =~= s) by {
        assert forall|i: int| 0 <= i < s.len() implies cleaned(s)[i] == s[i] by {
            assert(s[i] == ' ' || s[i] == '.');
        }
    }
}

proof fn the_stem_is_what_is_before_the_dot(name: Seq<char>, front: Seq<char>)
    requires
        begins_with_stem(name, front),
    ensures
        stem(name) == front,
    decreases name.len(),
{
    if front.len() == 0 {
        assert(stem(name) =~= front);
    } else {
        let n = name.drop_first();
        let f = front.drop_first();
        assert(name[0] == name.take(front.len() as int)[0]);
        assert(n.take(f.len() as int) =~= f) by {
            assert forall|i: int| 0 <= i < f.len() implies n[i] == f[i] by {
                assert(name.take(front.len() as int)[i + 1] == front[i + 1]);
            }
        }
        assert forall|i: int| 0 <= i < f.len() implies (#[trigger] f[i]) != '.' by {
            assert(f[i] == front[i + 1]);
        }
        assert(front[0] != '.');
        the_stem_is_what_is_before_the_dot(n, f);
        assert(seq![front[0]] + f =~= front);
    }
}

proof fn capitals_spell(s: Seq<char>, word: Seq<char>)
    requires
        forall|i: int| 0 <= i < word.len() ==> 'A' <= #[trigger] word[i] <= 'Z',
    ensures
        upper(s) == word <==> spells(s, word),
{
    if upper(s) == word {
        assert(s.len() == word.len());
        assert forall|i: int| 0 <= i < s.len() implies (#[trigger] s[i]) == word[i] || s[i] as int
            == word[i] as int + 32 by {
            assert(upper(s)[i] == upper_char(s[i]));
        }
    }
    if spells(s, word) {
        assert(upper(s) =~= word) by {
            assert forall|i: int| 0 <= i < s.len() implies upper(s)[i] == word[i] by {
                assert(s[i] == word[i] || s[i] as int == word[i] as int + 32);
                assert('A' <= word[i] <= 'Z');
            }
        }
    }
}

proof fn devices_are_reserved(s: Seq<char>)
    ensures
        is_device(upper(s)) <==> names_a_device(s),
{
    capitals_spell(s, seq!['C', 'O', 'N']);
    capitals_spell(s, seq!['P', 'R', 'N']);
    capitals_spell(s, seq!['A', 'U', 'X']);
    capitals_spell(s, seq!['N', 'U', 'L']);
    if s.len() == 4 {
        capitals_spell(s.take(3), seq!['C', 'O', 'M']);
        capitals_spell(s.take(3), seq!['L', 'P', 'T']);
        assert(upper(s).take(3) =~= upper(s.take(3)));
        assert(upper(s)[3] == upper_char(s[3]));
    }
}

/// A name is refused just where nothing is left of it: where everything
/// behind the last separator is spaces and dots.
pub proof fn only_empty_names_are_refused(dir: Seq<char>, base: Seq<char>)
    requires
        leads_in(dir),
        in_one_piece(base),
    ensures
        safe_name(dir + base) is None <==> all_gaps(base),
{
    the_last_part_is_the_base(dir, base);
    if all_gaps(base) {
        gaps_stay_gaps(base);
        gaps_in_front_are_cut(base, Seq::empty());
        assert(base + Seq::<char>::empty() =~= base);
        assert(bare_name(dir + base) =~= Seq::<char>::empty());
    } else {
        let k = choose|k: int| 0 <= k < base.len() && (#[trigger] base[k]) != ' ' && base[k] != '.';
        let c = cleaned(base);
        assert(c[k] == clean_char(base[k]));
        something_is_left(c, k);
    }
}

proof fn something_is_left(c: Seq<char>, k: int)
    requires
        0 <= k < c.len(),
        c[k] != ' ',
        c[k] != '.',
    ensures
        trim_back(trim_front(c)).len() > 0,
    decreases c.len(),
{
    if is_edge(c[0]) {
        assert(c.drop_first()[k - 1] == c[k]);
        something_is_left(c.drop_first(), k - 1);
    } else {
        something_is_left_behind(c, k);
    }
}

proof fn something_is_left_behind(c: Seq<char>, k: int)
    requires
        0 <= k < c.len(),
        c[k] != ' ',
        c[k] != '.',
    ensures
        trim_back(c).len() > 0,
    decreases c.len(),
{
    if is_edge(c.last()) {
        assert(c.drop_last()[k] == c[k]);
        something_is_left_behind(c.drop_last(), k);
    }
}

/// What a name is received as: what is behind its last separator, without
/// the spaces and dots around it, each character that some system refuses
/// made an underscore, and one more underscore in front where what is before
/// the first dot would be a device.
pub proof fn names_are_received_as_they_are_but_safe(
    dir: Seq<char>,
    lead: Seq<char>,
    mid: Seq<char>,
    tail: Seq<char>,
    front: Seq<char>,
)
    requires
        leads_in(dir),
        in_one_piece(lead + mid + tail),
        all_gaps(lead),
        all_gaps(tail),
        mid.len() > 0,
        mid[0] != ' ' && mid[0] != '.',
        mid.last() != ' ' && mid.last() != '.',
        begins_with_stem(mid.map_values(|c: char| received_char(c)), front),
    ensures
        ({
            let received = mid.map_values(|c: char| received_char(c));
            safe_name(dir + (lead + mid + tail)) == Some(
                if names_a_device(front) {
                    seq!['_'] + received
                } else {
                    received
                },
            )
        }),
{
    let base = lead + mid + tail;
    let received = mid.map_values(|c: char| received_char(c));
    the_last_part_is_the_base(dir, base);
    gaps_stay_gaps(lead);
    gaps_stay_gaps(tail);
    assert(cleaned(mid) =~= received);
    assert(cleaned(base) =~= cleaned(lead) + (cleaned(mid) + cleaned(tail)));
    gaps_in_front_are_cut(lead, received + tail);
    assert((received + tail)[0] == clean_char(mid[0]));
    assert(trim_front(received + tail) == received + tail);
    gaps_behind_are_cut(received, tail);
    assert(received.last() == clean_char(mid[mid.len() - 1]));
    assert(trim_back(received) == received);
    the_stem_is_what_is_before_the_dot(received, front);
    devices_are_reserved(front);
}

/// Every name can be read so: a part up to the last separator, and the rest.
pub proof fn every_name_has_a_last_part(offered: Seq<char>) -> (r: (Seq<char>, Seq<char>))
    ensures
        offered == r.0 + r.1,
        leads_in(r.0),
        in_one_piece(r.1),
    decreases offered.len(),
{
    if offered.len() == 0 || offered.last() == '/' || offered.last() == '\\' {
        assert(offered + Seq::<char>::empty() =~= offered);
        (offered, Seq::empty())
    } else {
        let (dir, base) = every_name_has_a_last_part(offered.drop_last());
        let longer = base.push(offered.last());
        assert(dir + longer =~= (dir + base).push(offered.last()));
        assert(offered.drop_last().push(offered.last()) =~= offered);
        (dir, longer)
    }
}

/// A path is split at every `/` and every `\`, and nowhere else.
pub proof fn paths_are_split_at_separators(a: Seq<char>, separator: char, b: Seq<char>)
    requires
        separator == '/' || separator == '\\',
    ensures
        in_one_piece(a) ==> components(a) == seq![a],
        components(a.push(separator) + b) == components(a) + components(b),
    decreases a.len() + b.len(),
{
    if in_one_piece(a) {
        one_piece_is_one_name(a);
    }
    pieces_add_up(a, separator, b);
}

proof fn one_piece_is_one_name(a: Seq<char>)
    requires
        in_one_piece(a),
    ensures
        components(a) == seq![a],
    decreases a.len(),
{
    if a.len() == 0 {
        assert(a =~= Seq::<char>::empty());
    } else {
        let front = a.drop_last();
        assert forall|i: int| 0 <= i < front.len() implies (#[trigger] front[i]) != '/' && front[i]
            != '\\' by {
            assert(front[i] == a[i]);
        }
        one_piece_is_one_name(front);
        assert(a[a.len() - 1] == a.last());
        assert(front.push(a.last()) =~= a);
        assert(seq![front].drop_last().push(a) =~= seq![a]);
    }
}

proof fn pieces_add_up(a: Seq<char>, separator: char, b: Seq<char>)
    requires
        separator == '/' || separator == '\\',
    ensures
        components(a.push(separator) + b) == components(a) + components(b),
    decreases b.len(),
{
    let whole = a.push(separator) + b;
    components_are_not_empty(b);
    if b.len() == 0 {
        assert(whole =~= a.push(separator));
        assert(whole.drop_last() =~= a);
        assert(components(a).push(Seq::empty()) =~= components(a) + components(b));
    } else {
        let front = b.drop_last();
        pieces_add_up(a, separator, front);
        components_are_not_empty(front);
        assert(whole.drop_last() =~= a.push(separator) + front);
        assert(whole.last() == b.last());
        let all = components(a) + components(front);
        if is_separator(b.last()) {
            assert(all.push(Seq::empty()) =~= components(a) + components(b));
        } else {
            assert(all.last() == components(front).last());
            assert(all.drop_last().push(all.last().push(b.last())) =~= components(a) + components(
                b,
            ));
        }
    }
}

/// A path inside a folder is taken just where it is not empty, has at most
/// 4096 bytes and 64 names, and nothing is wrong with any of them; each is
/// then received as it would be on its own, in its place.
pub proof fn paths_are_received_name_by_name(rel: Seq<char>)
    ensures
        safe_rel(rel) is Some <==> {
            &&& rel.len() > 0
            &&& encode_utf8(rel).len() <= 4096
            &&& components(rel).len() <= 64
            &&& forall|i: int|
                0 <= i < components(rel).len() ==> safe_name(#[trigger] components(rel)[i])
                    is Some
        },
        safe_rel(rel) is Some ==> {
            &&& safe_rel(rel)->0.len() == components(rel).len()
            &&& forall|i: int|
                0 <= i < components(rel).len() ==> Some(#[trigger] safe_rel(rel)->0[i])
                    == safe_name(components(rel)[i])
        },
{
    if safe_rel(rel) is Some {
        assert forall|i: int| 0 <= i < components(rel).len() implies Some(
            #[trigger] safe_rel(rel)->0[i],
        ) == safe_name(components(rel)[i]) by {
            assert(safe_name(components(rel)[i]) is Some);
        }
    }
}

/// The number of a file goes before its extension, ` (1)` first; what has no
/// extension, or is all extension, gets it at the end.
pub proof fn numbers_go_before_the_extension(front: Seq<char>, ext: Seq<char>, i: nat)
    requires
        ext.len() > 0 ==> front.len() > 0 && ext[0] == '.' && forall|k: int|
            0 < k < ext.len() ==> (#[trigger] ext[k]) != '.',
        ext.len() == 0 ==> forall|k: int| 0 < k < front.len() ==> (#[trigger] front[k]) != '.',
    ensures
        numbered_file(front + ext, 0) == front + ext,
        i > 0 ==> numbered_file(front + ext, i) == front + seq![' ', '('] + numeral(i) + seq![')']
            + ext,
        numbered_dir(front + ext, 0) == front + ext,
        i > 0 ==> numbered_dir(front + ext, i) == front + ext + seq![' ', '('] + numeral(i) + seq![
            ')',
        ],
{
    let name = front + ext;
    if ext.len() > 0 {
        the_last_dot_starts_it(front, ext);
        assert(name.take(front.len() as int) =~= front);
        assert(name.skip(front.len() as int) =~= ext);
    } else {
        assert(name =~= front);
        no_dot_inside(front);
        assert(front + number_mark(i) + ext =~= front + number_mark(i));
    }
    assert(front + number_mark(i) + ext =~= front + seq![' ', '('] + numeral(i) + seq![')'] + ext);
    assert(name + number_mark(i) =~= front + ext + seq![' ', '('] + numeral(i) + seq![')']);
}

proof fn the_last_dot_starts_it(front: Seq<char>, ext: Seq<char>)
    requires
        ext.len() > 0,
        ext[0] == '.',
        forall|k: int| 0 < k < ext.len() ==> (#[trigger] ext[k]) != '.',
    ensures
        last_dot(front + ext) == front.len(),
    decreases ext.len(),
{
    let name = front + ext;
    assert(name.last() == ext[ext.len() - 1]);
    if ext.len() > 1 {
        let less = ext.drop_last();
        assert forall|k: int| 0 < k < less.len() implies (#[trigger] less[k]) != '.' by {
            assert(less[k] == ext[k]);
        }
        assert(name.drop_last() =~= front + less);
        the_last_dot_starts_it(front, less);
    }
}

proof fn no_dot_inside(s: Seq<char>)
    requires
        forall|k: int| 0 < k < s.len() ==> (#[trigger] s[k]) != '.',
    ensures
        last_dot(s) <= 0,
    decreases s.len(),
{
    if s.len() > 1 {
        let less = s.drop_last();
        assert(s.last() == s[s.len() - 1]);
        assert forall|k: int| 0 < k < less.len() implies (#[trigger] less[k]) != '.' by {
            assert(less[k] == s[k]);
        }
        no_dot_inside(less);
    } else if s.len() == 1 {
        assert(last_dot(s.drop_last()) == -1);
    }
}

/// Places are told apart by the names on the way to them, which follow each
/// other as they are given.
pub proof fn places_follow_names(p: Place, name: Seq<char>, names: Seq<Seq<char>>)
    ensures
        p.join(name).base == p.base,
        p.join(name).parts == p.parts.push(name),
        p.follow(names).base == p.base,
        p.follow(names).parts == p.parts + names,
        p.follow(names.push(name)) == p.follow(names).join(name),
{
    assert(p.parts + names.push(name) =~= (p.parts + names).push(name));
}

/// A part file is called as its file, with `.vylopart` behind it.
pub proof fn part_files_are_called_so(name: Seq<char>)
    ensures
        part_name(name) == name + seq!['.', 'v', 'y', 'l', 'o', 'p', 'a', 'r', 't'],
{
    reveal_strlit(".vylopart");
    assert(".vylopart"@ =~= seq!['.', 'v', 'y', 'l', 'o', 'p', 'a', 'r', 't']);
}

/// What a location says is what it holds; nowhere is no place in anything.
pub proof fn locations_say_what_they_hold(l: Location, k: int)
    requires
        0 <= k < l.parts@.len(),
    ensures
        l@.base == l.base@,
        l@.parts.len() == l.parts@.len(),
        l@.parts[k] == l.parts@[k]@,
        Place::nowhere().base.len() == 0,
        Place::nowhere().parts.len() == 0,
{
}

/// The staging directories of drags and folders are known as such; nothing
/// that is received is ever taken for one, nor is anything else that does not
/// begin so.
pub proof fn staging_directories_are_known(n: nat, offered: Seq<char>, name: Seq<char>)
    ensures
        is_staging(".vylo-drag-"@ + numeral(n)),
        is_staging(".vylo-tree-"@ + numeral(n)),
        safe_name(offered) is Some ==> !is_staging(safe_name(offered)->0),
        is_staging(name) ==> name.len() >= 11 && name[0] == '.' && name[1] == 'v' && name[2] == 'y'
            && name[3] == 'l' && name[4] == 'o' && name[5] == '-',
{
    reveal_strlit(".vylo-drag-");
    reveal_strlit(".vylo-tree-");
    let d = ".vylo-drag-"@ + numeral(n);
    let t = ".vylo-tree-"@ + numeral(n);
    assert(d.subrange(0, 11) =~= ".vylo-drag-"@);
    assert(t.subrange(0, 11) =~= ".vylo-tree-"@);
    if is_staging(name) {
        staging_names_begin_so(name);
    }
    if safe_name(offered) is Some && is_staging(safe_name(offered)->0) {
        received_names_are_safe(offered);
        staging_names_begin_so(safe_name(offered)->0);
    }
}

proof fn staging_names_begin_so(name: Seq<char>)
    requires
        is_staging(name),
    ensures
        name.len() >= 11,
        name[0] == '.' && name[1] == 'v' && name[2] == 'y' && name[3] == 'l' && name[4] == 'o'
            && name[5] == '-',
{
    reveal_strlit(".vylo-drag-");
    reveal_strlit(".vylo-tree-");
    let front = name.subrange(0, 11);
    assert(front[0] == name[0] && front[1] == name[1] && front[2] == name[2] && front[3] == name[3]
        && front[4] == name[4] && front[5] == name[5]);
}

} // verus!
