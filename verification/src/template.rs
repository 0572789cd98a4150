//! Template wrapping for typst source code: package imports, structured
//! `#set` / `#show` rules, and the prelude that is put in front of user input.
use vstd::prelude::*;
use crate::text::{
    all_ws, chars_of, count_char, ends_with, find_in, first_index, has_prefix_at, is_ws, join,
    join_strings, lines, plain_line, push_str, split_lines, str_count_char, str_ends_with,
    str_is_blank, string_of_range, sub_vec, terminated_lines, trim, trim_bounds, trim_start,
    utf8_len, utf8_len_at_most, views, lemma_count_char_add, lemma_first_index,
    lemma_first_index_at, lemma_first_index_none, lemma_join_newline_terminated,
    lemma_lines_single, lemma_lines_terminated, lemma_terminated_lines_add, lemma_trim_fixed, lemma_trim_start_at,
};

verus! {

// ---------------------------------------------------------------------------
// Package imports
// ---------------------------------------------------------------------------

/// A `@namespace/name:version` package reference.
#[derive(Debug, Clone, PartialEq, Eq)]
pub struct PackageImport {
    pub namespace: String,
    pub name: String,
    pub version: String,
}

impl View for PackageImport {
    type V = (Seq<char>, Seq<char>, Seq<char>);

    open spec fn view(&self) -> (Seq<char>, Seq<char>, Seq<char>) {
        (self.namespace@, self.name@, self.version@)
    }
}

/// The fields of an import that a line can carry: the namespace stops at the
/// first `/`, the name at the first `:`, and none of them holds the closing
/// quote.
pub open spec fn import_fields_ok(p: (Seq<char>, Seq<char>, Seq<char>)) -> bool {
    &&& p.0.len() > 0 && !p.0.contains('/') && !p.0.contains('"')
    &&& p.1.len() > 0 && !p.1.contains(':') && !p.1.contains('"')
    &&& p.2.len() > 0 && !p.2.contains('"')
}

/// `@namespace/name:version`.
pub open spec fn import_target(p: (Seq<char>, Seq<char>, Seq<char>)) -> Seq<char> {
    "@"@ + p.0 + "/"@ + p.1 + ":"@ + p.2
}

/// `#import "@namespace/name:version"`.
pub open spec fn import_directive(p: (Seq<char>, Seq<char>, Seq<char>)) -> Seq<char> {
    "#import \""@ + import_target(p) + "\""@
}

/// `line`, once trimmed, is `#import`, optional whitespace, and the quoted
/// target of `p`, followed by anything (such as `: *`).
pub open spec fn is_import_of(line: Seq<char>, p: (Seq<char>, Seq<char>, Seq<char>)) -> bool {
    &&& import_fields_ok(p)
    &&& exists|w: Seq<char>, tail: Seq<char>|
        #![trigger all_ws(w), tail.len()]
        all_ws(w) && trim(line) == "#import"@ + w + "\""@ + import_target(p) + "\""@ + tail
}

/// The import that `line` states, if it states one.
pub open spec fn parsed_import(line: Seq<char>) -> Option<(Seq<char>, Seq<char>, Seq<char>)> {
    if exists|p: (Seq<char>, Seq<char>, Seq<char>)| is_import_of(line, p) {
        Some(choose|p: (Seq<char>, Seq<char>, Seq<char>)| is_import_of(line, p))
    } else {
        None
    }
}

/// `namespace/name:version` split at the first `/` and the first `:` after it.
spec fn split_target(target: Seq<char>) -> Option<(Seq<char>, Seq<char>, Seq<char>)> {
    match first_index(target, '/') {
        None => None,
        Some(sl) => {
            let after = target.skip(sl + 1);
            match first_index(after, ':') {
                None => None,
                Some(co) => {
                    let p = (target.take(sl), after.take(co), after.skip(co + 1));
                    if p.0.len() > 0 && p.1.len() > 0 && p.2.len() > 0 {
                        Some(p)
                    } else {
                        None
                    }
                },
            }
        },
    }
}

/// `"@target"...` read up to the closing quote.
spec fn split_quoted(r: Seq<char>) -> Option<(Seq<char>, Seq<char>, Seq<char>)> {
    if r.len() < 2 || r[0] != '"' || r[1] != '@' {
        None
    } else {
        let rest = r.skip(2);
        match first_index(rest, '"') {
            None => None,
            Some(q) => split_target(rest.take(q)),
        }
    }
}

/// Reading of a trimmed line step by step: keyword, whitespace, `"@`, then
/// the target up to the closing quote.
spec fn split_import(t: Seq<char>) -> Option<(Seq<char>, Seq<char>, Seq<char>)> {
    let kw = "#import"@;
    if !kw.is_prefix_of(t) {
        None
    } else {
        split_quoted(trim_start(t.skip(kw.len() as int)))
    }
}

/// `namespace/name:version`.
spec fn target_chars(p: (Seq<char>, Seq<char>, Seq<char>)) -> Seq<char> {
    p.0 + seq!['/'] + p.1 + seq![':'] + p.2
}

proof fn lemma_literals()
    ensures
        "#import"@ == seq!['#', 'i', 'm', 'p', 'o', 'r', 't'],
        "\""@ == seq!['"'],
        "@"@ == seq!['@'],
        "/"@ == seq!['/'],
        ":"@ == seq![':'],
        "#import \""@ == seq!['#', 'i', 'm', 'p', 'o', 'r', 't', ' ', '"'],
{
    reveal_strlit("#import");
    reveal_strlit("\"");
    reveal_strlit("@");
    reveal_strlit("/");
    reveal_strlit(":");
    reveal_strlit("#import \"");
}

proof fn lemma_import_target(p: (Seq<char>, Seq<char>, Seq<char>))
    ensures
        import_target(p) == seq!['@'] + target_chars(p),
{
    lemma_literals();
    assert(import_target(p) =~= seq!['@'] + target_chars(p));
}

proof fn lemma_split_target_complete(p: (Seq<char>, Seq<char>, Seq<char>))
    requires
        import_fields_ok(p),
    ensures
        split_target(target_chars(p)) == Some(p),
{
    let (ns, name, ver) = p;
    let target = target_chars(p);
    assert forall|j: int| 0 <= j < ns.len() implies target[j] != '/' by {
        assert(target[j] == ns[j]);
        assert(ns.contains(ns[j]));
    }
    assert(target[ns.len() as int] == '/');
    lemma_first_index_at(target, '/', ns.len() as int);
    let after = target.skip(ns.len() + 1int);
    assert(after =~= name + seq![':'] + ver);
    assert forall|j: int| 0 <= j < name.len() implies after[j] != ':' by {
        assert(after[j] == name[j]);
        assert(name.contains(name[j]));
    }
    lemma_first_index_at(after, ':', name.len() as int);
    assert(target.take(ns.len() as int) =~= ns);
    assert(after.take(name.len() as int) =~= name);
    assert(after.skip(name.len() + 1int) =~= ver);
}

proof fn lemma_split_quoted_complete(p: (Seq<char>, Seq<char>, Seq<char>), tail: Seq<char>)
    requires
        import_fields_ok(p),
    ensures
        split_quoted(seq!['"', '@'] + target_chars(p) + seq!['"'] + tail) == Some(p),
{
    let (ns, name, ver) = p;
    let target = target_chars(p);
    let r = seq!['"', '@'] + target + seq!['"'] + tail;
    let rest = r.skip(2);
    assert(rest =~= target + seq!['"'] + tail);
    assert forall|j: int| 0 <= j < target.len() implies rest[j] != '"' by {
        assert(rest[j] == target[j]);
        if j < ns.len() {
            assert(target[j] == ns[j]);
            assert(ns.contains(ns[j]));
        } else if j == ns.len() {
        } else if j < ns.len() + 1 + name.len() {
            assert(target[j] == name[j - ns.len() - 1]);
            assert(name.contains(name[j - ns.len() - 1]));
        } else if j == ns.len() + 1 + name.len() {
        } else {
            assert(target[j] == ver[j - ns.len() - 2 - name.len()]);
            assert(ver.contains(ver[j - ns.len() - 2 - name.len()]));
        }
    }
    lemma_first_index_at(rest, '"', target.len() as int);
    assert(rest.take(target.len() as int) =~= target);
    lemma_split_target_complete(p);
}

/// A decomposition as `is_import_of` describes is what `split_import` reads.
proof fn lemma_split_import_complete(
    t: Seq<char>,
    w: Seq<char>,
    tail: Seq<char>,
    p: (Seq<char>, Seq<char>, Seq<char>),
)
    requires
        import_fields_ok(p),
        all_ws(w),
        t == "#import"@ + w + "\""@ + import_target(p) + "\""@ + tail,
    ensures
        split_import(t) == Some(p),
{
    lemma_literals();
    lemma_import_target(p);
    let kw = "#import"@;
    let body = seq!['"', '@'] + target_chars(p) + seq!['"'] + tail;
    assert(t =~= kw + w + body);
    assert(kw.is_prefix_of(t)) by {
        assert forall|i: int| 0 <= i < kw.len() implies kw[i] == t[i] by {}
    }
    let s7 = t.skip(7);
    assert(s7 =~= w + body);
    assert forall|j: int| 0 <= j < w.len() implies is_ws(#[trigger] s7[j]) by {
        assert(s7[j] == w[j]);
    }
    assert(s7[w.len() as int] == '"');
    lemma_trim_start_at(s7, w.len() as int);
    assert(trim_start(s7) =~= body);
    lemma_split_quoted_complete(p, tail);
}

/// The number of leading whitespace characters that `trim_start` removes.
proof fn lemma_trim_start_prefix(s: Seq<char>) -> (k: int)
    ensures
        0 <= k <= s.len(),
        trim_start(s) == s.skip(k),
        forall|j: int| 0 <= j < k ==> is_ws(#[trigger] s[j]),
    decreases s.len(),
{
    if s.len() > 0 && is_ws(s[0]) {
        let k1 = lemma_trim_start_prefix(s.drop_first());
        assert(s.drop_first().skip(k1) =~= s.skip(k1 + 1));
        assert forall|j: int| 0 <= j < k1 + 1 implies is_ws(#[trigger] s[j]) by {
            if j > 0 {
                assert(s[j] == s.drop_first()[j - 1]);
            }
        }
        k1 + 1
    } else {
        assert(s.skip(0) =~= s);
        0
    }
}

proof fn lemma_split_target_sound(target: Seq<char>)
    requires
        split_target(target) is Some,
    ensures
        import_fields_ok(split_target(target)->0) || target.contains('"'),
        target == target_chars(split_target(target)->0),
{
    let p = split_target(target)->0;
    lemma_first_index(target, '/');
    let sl = first_index(target, '/')->0;
    let after = target.skip(sl + 1);
    lemma_first_index(after, ':');
    let co = first_index(after, ':')->0;
    let (ns, name, ver) = p;
    assert(!ns.contains('/')) by {
        if ns.contains('/') {
            let j = choose|j: int| 0 <= j < ns.len() && ns[j] == '/';
            assert(target[j] == '/');
        }
    }
    assert(!name.contains(':')) by {
        if name.contains(':') {
            let j = choose|j: int| 0 <= j < name.len() && name[j] == ':';
            assert(after[j] == ':');
        }
    }
    assert(after =~= name + seq![':'] + ver);
    assert(target =~= ns + seq!['/'] + after);
    assert(target =~= target_chars(p));
    if !target.contains('"') {
        assert(!ns.contains('"')) by {
            if ns.contains('"') {
                let j = choose|j: int| 0 <= j < ns.len() && ns[j] == '"';
                assert(target[j] == '"');
            }
        }
        assert(!name.contains('"')) by {
            if name.contains('"') {
                let j = choose|j: int| 0 <= j < name.len() && name[j] == '"';
                assert(target[sl + 1 + j] == '"');
            }
        }
        assert(!ver.contains('"')) by {
            if ver.contains('"') {
                let j = choose|j: int| 0 <= j < ver.len() && ver[j] == '"';
                assert(target[sl + 1 + co + 1 + j] == '"');
            }
        }
    }
}

proof fn lemma_split_quoted_sound(r: Seq<char>)
    requires
        split_quoted(r) is Some,
    ensures
        import_fields_ok(split_quoted(r)->0),
        exists|tail: Seq<char>|
            r == seq!['"', '@'] + target_chars(split_quoted(r)->0) + seq!['"'] + #[trigger] tail.skip(0),
{
    let rest = r.skip(2);
    lemma_first_index(rest, '"');
    let q = first_index(rest, '"')->0;
    let target = rest.take(q);
    lemma_split_target_sound(target);
    assert(!target.contains('"')) by {
        if target.contains('"') {
            let j = choose|j: int| 0 <= j < target.len() && target[j] == '"';
            assert(rest[j] == '"');
        }
    }
    let tail = rest.skip(q + 1);
    assert(tail.skip(0) =~= tail);
    assert(r =~= seq!['"', '@'] + target + seq!['"'] + tail);
}

/// What `split_import` reads is a decomposition as `is_import_of` describes.
proof fn lemma_split_import_sound(t: Seq<char>)
    requires
        split_import(t) is Some,
    ensures
        import_fields_ok(split_import(t)->0),
        exists|w: Seq<char>, tail: Seq<char>|
            #![trigger all_ws(w), tail.len()]
            all_ws(w) && t == "#import"@ + w + "\""@ + import_target(split_import(t)->0) + "\""@
                + tail,
{
    lemma_literals();
    let p = split_import(t)->0;
    lemma_import_target(p);
    let s7 = t.skip(7);
    let k = lemma_trim_start_prefix(s7);
    let r = trim_start(s7);
    lemma_split_quoted_sound(r);
    let tail0 = choose|tail: Seq<char>|
        r == seq!['"', '@'] + target_chars(p) + seq!['"'] + #[trigger] tail.skip(0);
    let tail = tail0.skip(0);
    let w = s7.take(k);
    assert(all_ws(w)) by {
        assert forall|j: int| 0 <= j < w.len() implies is_ws(#[trigger] w[j]) by {
            assert(w[j] == s7[j]);
        }
    }
    assert(s7 =~= w + r);
    assert(t.take(7) =~= "#import"@);
    assert(t =~= t.take(7) + s7);
    assert(t =~= "#import"@ + w + "\""@ + import_target(p) + "\""@ + tail);
}

/// A line states at most one import.
pub proof fn lemma_import_of_unique(
    line: Seq<char>,
    p: (Seq<char>, Seq<char>, Seq<char>),
    q: (Seq<char>, Seq<char>, Seq<char>),
)
    requires
        is_import_of(line, p),
        is_import_of(line, q),
    ensures
        p == q,
{
    let (w1, t1) = choose|w: Seq<char>, tail: Seq<char>|
        #![trigger all_ws(w), tail.len()]
        all_ws(w) && trim(line) == "#import"@ + w + "\""@ + import_target(p) + "\""@ + tail;
    let (w2, t2) = choose|w: Seq<char>, tail: Seq<char>|
        #![trigger all_ws(w), tail.len()]
        all_ws(w) && trim(line) == "#import"@ + w + "\""@ + import_target(q) + "\""@ + tail;
    lemma_split_import_complete(trim(line), w1, t1, p);
    lemma_split_import_complete(trim(line), w2, t2, q);
}

/// `parsed_import` is the reading of `split_import` on the trimmed line.
proof fn lemma_parsed_import(line: Seq<char>)
    ensures
        parsed_import(line) == split_import(trim(line)),
        parsed_import(line) matches Some(p) ==> is_import_of(line, p),
{
    if split_import(trim(line)) is Some {
        lemma_split_import_sound(trim(line));
        let p = split_import(trim(line))->0;
        assert(is_import_of(line, p));
        let c = choose|p: (Seq<char>, Seq<char>, Seq<char>)| is_import_of(line, p);
        lemma_import_of_unique(line, p, c);
    } else {
        if exists|p: (Seq<char>, Seq<char>, Seq<char>)| is_import_of(line, p) {
            let p = choose|p: (Seq<char>, Seq<char>, Seq<char>)| is_import_of(line, p);
            let (w, tail) = choose|w: Seq<char>, tail: Seq<char>|
                #![trigger all_ws(w), tail.len()]
                all_ws(w) && trim(line) == "#import"@ + w + "\""@ + import_target(p) + "\""@
                    + tail;
            lemma_split_import_complete(trim(line), w, tail, p);
        }
    }
}

/// Reading back the line that `PackageImport::to_typst` writes gives the same
/// import, for every import whose fields a line can carry.
pub proof fn law_import_roundtrip(p: (Seq<char>, Seq<char>, Seq<char>))
    requires
        import_fields_ok(p),
    ensures
        parsed_import(import_directive(p)) == Some(p),
{
    lemma_literals();
    let d = import_directive(p);
    let w = seq![' '];
    let tail = Seq::<char>::empty();
    assert(d[0] == '#');
    assert(d.last() == '"');
    assert(!is_ws('#'));
    assert(!is_ws('"'));
    lemma_trim_fixed(d);
    assert(is_ws(w[0]));
    assert(all_ws(w));
    assert("#import \""@ =~= "#import"@ + w + "\""@);
    assert(d =~= "#import"@ + w + "\""@ + import_target(p) + "\""@ + tail);
    lemma_split_import_complete(trim(d), w, tail, p);
    lemma_parsed_import(d);
}

impl PackageImport {
    pub fn new(namespace: &str, name: &str, version: &str) -> (r: Self)
        ensures
            r@ == (namespace@, name@, version@),
    {
        PackageImport {
            namespace: namespace.to_owned(),
            name: name.to_owned(),
            version: version.to_owned(),
        }
    }

    /// Generate a typst `#import` line (without trailing newline).
    pub fn to_typst(&self) -> (r: String)
        ensures
            r@ == import_directive(self@),
    {
        let mut r = String::new();
        push_str(&mut r, "#import \"");
        push_str(&mut r, "@");
        push_str(&mut r, self.namespace.as_str());
        push_str(&mut r, "/");
        push_str(&mut r, self.name.as_str());
        push_str(&mut r, ":");
        push_str(&mut r, self.version.as_str());
        push_str(&mut r, "\"");
        assert(r@ =~= import_directive(self@));
        r
    }

    /// The `@namespace/name:version` form of the import.
    pub fn to_display_string(&self) -> (r: String)
        ensures
            r@ == import_target(self@),
    {
        let mut r = String::new();
        push_str(&mut r, "@");
        push_str(&mut r, self.namespace.as_str());
        push_str(&mut r, "/");
        push_str(&mut r, self.name.as_str());
        push_str(&mut r, ":");
        push_str(&mut r, self.version.as_str());
        assert(r@ =~= import_target(self@));
        r
    }

    /// Parse a typst `#import "@namespace/name:version"` line.
    ///
    /// Accepts optional leading/trailing whitespace and trailing content after
    /// the closing quote (e.g. `: *` for glob imports).
    pub fn parse(line: &str) -> (r: Option<Self>)
        ensures
            r matches Some(p) ==> is_import_of(line@, p@),
            r is None <==> forall|p: (Seq<char>, Seq<char>, Seq<char>)| !is_import_of(line@, p),
            match r {
                Some(p) => parsed_import(line@) == Some(p@),
                None => parsed_import(line@) is None,
            },
    {
        proof {
            lemma_parsed_import(line@);
        }
        let v = chars_of(line);
        let (a, b) = trim_bounds(&v, 0, v.len());
        let t = sub_vec(&v, a, b);
        assert(t@ == trim(line@)) by {
            assert(v@.subrange(0, v@.len() as int) == v@);
        }
        let kw = chars_of("#import");
        assert(t@.skip(0) == t@);
        if !has_prefix_at(&t, 0, &kw) {
            return None;
        }
        let tlen = t.len();
        let (c, _e) = trim_bounds(&t, kw.len(), tlen);
        assert(t@.skip(kw@.len() as int) == t@.subrange(kw.len() as int, tlen as int));
        let r = Self::split_quoted_from(&t, c);
        assert(r matches Some(p) ==> p@ == split_import(t@)->0);
        r
    }

    /// Reads `t[c..]` as `split_quoted` does.
    fn split_quoted_from(t: &Vec<char>, c: usize) -> (r: Option<Self>)
        requires
            c <= t.len(),
        ensures
            match r {
                Some(p) => split_quoted(t@.skip(c as int)) == Some(p@),
                None => split_quoted(t@.skip(c as int)) is None,
            },
    {
        let tlen = t.len();
        let ghost r = t@.skip(c as int);
        if tlen - c < 2 || t[c] != '"' || t[c + 1] != '@' {
            return None;
        }
        let ghost rest = r.skip(2);
        assert(rest == t@.subrange(c + 2, tlen as int));
        match find_in(t, c + 2, tlen, '"') {
            Some(q) => {
                proof {
                    assert forall|j: int| 0 <= j < q - (c + 2) implies rest[j] != '"' by {
                        assert(rest[j] == t@[c + 2 + j]);
                    }
                    assert(rest[q - (c + 2)] == t@[q as int]);
                    lemma_first_index_at(rest, '"', q - (c + 2));
                    assert(rest.take(q - (c + 2)) == t@.subrange(c + 2, q as int));
                }
                Self::split_target_in(t, c + 2, q)
            },
            None => {
                proof {
                    assert forall|j: int| 0 <= j < rest.len() implies rest[j] != '"' by {
                        assert(rest[j] == t@[c + 2 + j]);
                    }
                    lemma_first_index_none(rest, '"');
                }
                None
            },
        }
    }

    /// Reads `t[lo..hi]` as `split_target` does.
    fn split_target_in(t: &Vec<char>, lo: usize, hi: usize) -> (r: Option<Self>)
        requires
            lo <= hi <= t.len(),
        ensures
            match r {
                Some(p) => split_target(t@.subrange(lo as int, hi as int)) == Some(p@),
                None => split_target(t@.subrange(lo as int, hi as int)) is None,
            },
    {
        let ghost target = t@.subrange(lo as int, hi as int);
        let sl = match find_in(t, lo, hi, '/') {
            Some(sl) => {
                proof {
                    assert forall|j: int| 0 <= j < sl - lo implies target[j] != '/' by {
                        assert(target[j] == t@[lo + j]);
                    }
                    assert(target[sl - lo] == t@[sl as int]);
                    lemma_first_index_at(target, '/', sl - lo);
                }
                sl
            },
            None => {
                proof {
                    assert forall|j: int| 0 <= j < target.len() implies target[j] != '/' by {
                        assert(target[j] == t@[lo + j]);
                    }
                    lemma_first_index_none(target, '/');
                }
                return None;
            },
        };
        let ghost after = target.skip(sl - lo + 1);
        assert(after == t@.subrange(sl + 1, hi as int));
        let co = match find_in(t, sl + 1, hi, ':') {
            Some(co) => {
                proof {
                    assert forall|j: int| 0 <= j < co - (sl + 1) implies after[j] != ':' by {
                        assert(after[j] == t@[sl + 1 + j]);
                    }
                    assert(after[co - (sl + 1)] == t@[co as int]);
                    lemma_first_index_at(after, ':', co - (sl + 1));
                }
                co
            },
            None => {
                proof {
                    assert forall|j: int| 0 <= j < after.len() implies after[j] != ':' by {
                        assert(after[j] == t@[sl + 1 + j]);
                    }
                    lemma_first_index_none(after, ':');
                }
                return None;
            },
        };
        if sl == lo || co == sl + 1 || hi == co + 1 {
            return None;
        }
        let p = PackageImport {
            namespace: string_of_range(t, lo, sl),
            name: string_of_range(t, sl + 1, co),
            version: string_of_range(t, co + 1, hi),
        };
        assert(target.take(sl - lo) == t@.subrange(lo as int, sl as int));
        assert(after.take(co - (sl + 1)) == t@.subrange(sl + 1, co as int));
        assert(after.skip(co - (sl + 1) + 1) == t@.subrange(co + 1, hi as int));
        Some(p)
    }
}

// ---------------------------------------------------------------------------
// Structured settings (programmatic prelude building)
// ---------------------------------------------------------------------------

/// `#set directive(p1, p2, ...)` on one line.
pub open spec fn set_rule_single(directive: Seq<char>, parts: Seq<Seq<char>>) -> Seq<char> {
    "#set "@ + directive + "("@ + join(parts, ", "@) + ")\n"@
}

/// `#set directive(` with one part per indented line.
pub open spec fn set_rule_multi(directive: Seq<char>, parts: Seq<Seq<char>>) -> Seq<char> {
    "#set "@ + directive + "(\n  "@ + join(parts, ",\n  "@) + "\n)\n"@
}

/// The rule `format_set_rule` writes: nothing for no parts, the one-line form
/// when it takes at most 72 bytes or there is a single part, the multi-line
/// form otherwise.
pub open spec fn set_rule(directive: Seq<char>, parts: Seq<Seq<char>>) -> Seq<char> {
    if parts.len() == 0 {
        Seq::empty()
    } else if utf8_len(set_rule_single(directive, parts)) <= 72 || parts.len() == 1 {
        set_rule_single(directive, parts)
    } else {
        set_rule_multi(directive, parts)
    }
}

/// `label` followed by the value, when there is one.
pub open spec fn opt_part(label: Seq<char>, v: Option<String>) -> Seq<Seq<char>> {
    match v {
        Some(s) => seq![label + s@],
        None => Seq::empty(),
    }
}

/// `s` in double quotes.
pub open spec fn quoted(s: Seq<char>) -> Seq<char> {
    "\""@ + s + "\""@
}

/// `label` followed by the quoted value, when there is one.
pub open spec fn opt_quoted_part(label: Seq<char>, v: Option<String>) -> Seq<Seq<char>> {
    match v {
        Some(s) => seq![label + quoted(s@)],
        None => Seq::empty(),
    }
}

/// The `font:` argument: nothing, one quoted name, or a tuple of quoted names.
pub open spec fn font_part(fonts: Seq<Seq<char>>) -> Seq<Seq<char>> {
    if fonts.len() == 0 {
        Seq::empty()
    } else if fonts.len() == 1 {
        seq!["font: "@ + quoted(fonts[0])]
    } else {
        seq!["font: ("@ + join(fonts.map_values(|f: Seq<char>| quoted(f)), ", "@) + ")"@]
    }
}

/// `true` or `false`.
pub open spec fn bool_text(b: bool) -> Seq<char> {
    if b {
        "true"@
    } else {
        "false"@
    }
}

/// The block rule for display equations, when it has arguments.
pub open spec fn block_rule(parts: Seq<Seq<char>>) -> Seq<char> {
    if parts.len() == 0 {
        Seq::empty()
    } else {
        "#show math.equation.where(block: true): set block("@ + join(parts, ", "@) + ")\n"@
    }
}

/// `r` followed by a newline unless it already ends with one.
pub open spec fn line_terminated(r: Seq<char>) -> Seq<char> {
    if ends_with(r, '\n') {
        r
    } else {
        r.push('\n')
    }
}

/// The extra rules, each on lines of its own.
pub open spec fn rules_text(rules: Seq<Seq<char>>) -> Seq<char>
    decreases rules.len(),
{
    if rules.len() == 0 {
        Seq::empty()
    } else {
        rules_text(rules.drop_last()) + line_terminated(rules.last())
    }
}

/// `label` followed by `value`.
fn labeled(label: &str, value: &str) -> (r: String)
    ensures
        r@ == label@ + value@,
{
    let mut r = String::new();
    push_str(&mut r, label);
    push_str(&mut r, value);
    r
}

/// `label` followed by `value` in double quotes.
fn labeled_quoted(label: &str, value: &str) -> (r: String)
    ensures
        r@ == label@ + quoted(value@),
{
    let mut r = String::new();
    push_str(&mut r, label);
    push_str(&mut r, "\"");
    push_str(&mut r, value);
    push_str(&mut r, "\"");
    assert(r@ =~= label@ + quoted(value@));
    r
}

/// `value` in double quotes.
fn quote(value: &str) -> (r: String)
    ensures
        r@ == quoted(value@),
{
    let mut r = String::new();
    push_str(&mut r, "\"");
    push_str(&mut r, value);
    push_str(&mut r, "\"");
    r
}

/// Appends `label value` to `parts` when there is a value.
fn push_opt_part(parts: &mut Vec<String>, label: &str, v: &Option<String>)
    ensures
        views(final(parts)@) == views(old(parts)@) + opt_part(label@, *v),
{
    let ghost before = views(parts@);
    match v {
        Some(s) => {
            parts.push(labeled(label, s.as_str()));
            assert(views(parts@) =~= before + opt_part(label@, *v));
        },
        None => {
            assert(views(parts@) =~= before + opt_part(label@, *v));
        },
    }
}

/// Appends `label "value"` to `parts` when there is a value.
fn push_opt_quoted_part(parts: &mut Vec<String>, label: &str, v: &Option<String>)
    ensures
        views(final(parts)@) == views(old(parts)@) + opt_quoted_part(label@, *v),
{
    let ghost before = views(parts@);
    match v {
        Some(s) => {
            parts.push(labeled_quoted(label, s.as_str()));
            assert(views(parts@) =~= before + opt_quoted_part(label@, *v));
        },
        None => {
            assert(views(parts@) =~= before + opt_quoted_part(label@, *v));
        },
    }
}

/// Generate a `#set directive(key: val, ...)` rule, choosing single-line or
/// multi-line format based on estimated length.
pub fn format_set_rule(directive: &str, parts: &Vec<String>) -> (r: String)
    ensures
        r@ == set_rule(directive@, views(parts@)),
{
    if parts.len() == 0 {
        return String::new();
    }
    let joined = join_strings(parts, ", ");
    let mut single = String::new();
    push_str(&mut single, "#set ");
    push_str(&mut single, directive);
    push_str(&mut single, "(");
    push_str(&mut single, joined.as_str());
    push_str(&mut single, ")\n");
    assert(single@ =~= set_rule_single(directive@, views(parts@)));
    if utf8_len_at_most(single.as_str(), 72) || parts.len() == 1 {
        single
    } else {
        let joined = join_strings(parts, ",\n  ");
        let mut multi = String::new();
        push_str(&mut multi, "#set ");
        push_str(&mut multi, directive);
        push_str(&mut multi, "(\n  ");
        push_str(&mut multi, joined.as_str());
        push_str(&mut multi, "\n)\n");
        assert(multi@ =~= set_rule_multi(directive@, views(parts@)));
        multi
    }
}

/// Page geometry: `#set page(width: .., height: .., margin: ..)`.
#[derive(Debug, Clone)]
pub struct PageSettings {
    pub width: Option<String>,
    pub height: Option<String>,
    pub margin: Option<String>,
}

impl PageSettings {
    /// The arguments of the page rule.
    pub open spec fn parts(&self) -> Seq<Seq<char>> {
        opt_part("width: "@, self.width) + opt_part("height: "@, self.height) + opt_part(
            "margin: "@,
            self.margin,
        )
    }

    /// The page rule.
    pub open spec fn typst(&self) -> Seq<char> {
        set_rule("page"@, self.parts())
    }

    pub fn to_typst(&self) -> (r: String)
        ensures
            r@ == self.typst(),
    {
        let mut parts: Vec<String> = Vec::new();
        push_opt_part(&mut parts, "width: ", &self.width);
        push_opt_part(&mut parts, "height: ", &self.height);
        push_opt_part(&mut parts, "margin: ", &self.margin);
        assert(views(parts@) =~= self.parts());
        format_set_rule("page", &parts)
    }
}

impl PageSettings {
    /// Automatic page size with a 10pt margin.
    pub open spec fn is_default(&self) -> bool {
        &&& self.width matches Some(w) && w@ == "auto"@
        &&& self.height matches Some(h) && h@ == "auto"@
        &&& self.margin matches Some(m) && m@ == "10pt"@
    }
}

impl Default for PageSettings {
    fn default() -> (r: Self)
        ensures
            r.is_default(),
    {
        PageSettings {
            width: Some("auto".to_owned()),
            height: Some("auto".to_owned()),
            margin: Some("10pt".to_owned()),
        }
    }
}

/// Body text: `#set text(font: .., size: .., lang: .., region: ..)`.
#[derive(Debug, Clone)]
pub struct TextSettings {
    pub font: Vec<String>,
    pub size: Option<String>,
    pub lang: Option<String>,
    pub region: Option<String>,
}

impl TextSettings {
    /// The arguments of the text rule.
    pub open spec fn parts(&self) -> Seq<Seq<char>> {
        font_part(views(self.font@)) + opt_part("size: "@, self.size) + opt_quoted_part(
            "lang: "@,
            self.lang,
        ) + opt_quoted_part("region: "@, self.region)
    }

    /// The text rule.
    pub open spec fn typst(&self) -> Seq<char> {
        set_rule("text"@, self.parts())
    }

    pub fn to_typst(&self) -> (r: String)
        ensures
            r@ == self.typst(),
    {
        let mut parts: Vec<String> = Vec::new();
        if self.font.len() == 1 {
            parts.push(labeled_quoted("font: ", self.font[0].as_str()));
        } else if self.font.len() > 1 {
            let mut list: Vec<String> = Vec::new();
            let mut i: usize = 0;
            while i < self.font.len()
                invariant
                    i <= self.font.len(),
                    views(list@) == views(self.font@).take(i as int).map_values(
                        |f: Seq<char>| quoted(f),
                    ),
                decreases self.font.len() - i,
            {
                let ghost before = views(list@);
                list.push(quote(self.font[i].as_str()));
                assert(views(list@) == before.push(quoted(self.font@[i as int]@)));
                assert(views(self.font@).take(i + 1) == views(self.font@).take(i as int).push(
                    self.font@[i as int]@,
                ));
                assert(views(list@) =~= views(self.font@).take(i + 1).map_values(
                    |f: Seq<char>| quoted(f),
                ));
                i = i + 1;
            }
            assert(views(self.font@).take(self.font.len() as int) == views(self.font@));
            let joined = join_strings(&list, ", ");
            let mut part = String::new();
            push_str(&mut part, "font: (");
            push_str(&mut part, joined.as_str());
            push_str(&mut part, ")");
            parts.push(part);
        }
        assert(views(parts@) =~= font_part(views(self.font@)));
        push_opt_part(&mut parts, "size: ", &self.size);
        push_opt_quoted_part(&mut parts, "lang: ", &self.lang);
        push_opt_quoted_part(&mut parts, "region: ", &self.region);
        assert(views(parts@) =~= self.parts());
        format_set_rule("text", &parts)
    }
}

impl TextSettings {
    /// Latin Modern Roman with CJK fallbacks, 10.5pt, Chinese (China).
    pub open spec fn is_default(&self) -> bool {
        &&& views(self.font@) == seq![
            "Latin Modern Roman"@,
            "Noto Serif CJK SC"@,
            "Source Han Serif SC"@,
            "SimSun"@,
        ]
        &&& self.size matches Some(s) && s@ == "10.5pt"@
        &&& self.lang matches Some(l) && l@ == "zh"@
        &&& self.region matches Some(g) && g@ == "cn"@
    }
}

impl Default for TextSettings {
    fn default() -> (r: Self)
        ensures
            r.is_default(),
    {
        let font = vec![
            "Latin Modern Roman".to_owned(),
            "Noto Serif CJK SC".to_owned(),
            "Source Han Serif SC".to_owned(),
            "SimSun".to_owned(),
        ];
        assert(views(font@) =~= seq![
            "Latin Modern Roman"@,
            "Noto Serif CJK SC"@,
            "Source Han Serif SC"@,
            "SimSun"@,
        ]);
        TextSettings {
            font,
            size: Some("10.5pt".to_owned()),
            lang: Some("zh".to_owned()),
            region: Some("cn".to_owned()),
        }
    }
}

/// Equation font and spacing around display equations.
#[derive(Debug, Clone)]
pub struct MathSettings {
    pub math_font: Option<String>,
    pub block_above: Option<String>,
    pub block_below: Option<String>,
}

impl MathSettings {
    /// The arguments of the block rule for display equations.
    pub open spec fn block_parts(&self) -> Seq<Seq<char>> {
        opt_part("above: "@, self.block_above) + opt_part("below: "@, self.block_below)
    }

    /// The equation rules.
    pub open spec fn typst(&self) -> Seq<char> {
        (match self.math_font {
            Some(f) => "#show math.equation: set text(font: \""@ + f@ + "\")\n"@,
            None => Seq::empty(),
        }) + block_rule(self.block_parts())
    }

    pub fn to_typst(&self) -> (r: String)
        ensures
            r@ == self.typst(),
    {
        let mut out = String::new();
        match &self.math_font {
            Some(f) => {
                push_str(&mut out, "#show math.equation: set text(font: \"");
                push_str(&mut out, f.as_str());
                push_str(&mut out, "\")\n");
            },
            None => {},
        }
        let mut block_parts: Vec<String> = Vec::new();
        push_opt_part(&mut block_parts, "above: ", &self.block_above);
        push_opt_part(&mut block_parts, "below: ", &self.block_below);
        assert(views(block_parts@) =~= self.block_parts());
        if block_parts.len() > 0 {
            let joined = join_strings(&block_parts, ", ");
            push_str(&mut out, "#show math.equation.where(block: true): set block(");
            push_str(&mut out, joined.as_str());
            push_str(&mut out, ")\n");
        }
        assert(out@ =~= self.typst());
        out
    }
}

impl MathSettings {
    /// Latin Modern Math with 1em above and below display equations.
    pub open spec fn is_default(&self) -> bool {
        &&& self.math_font matches Some(f) && f@ == "Latin Modern Math"@
        &&& self.block_above matches Some(a) && a@ == "1em"@
        &&& self.block_below matches Some(b) && b@ == "1em"@
    }
}

impl Default for MathSettings {
    fn default() -> (r: Self)
        ensures
            r.is_default(),
    {
        MathSettings {
            math_font: Some("Latin Modern Math".to_owned()),
            block_above: Some("1em".to_owned()),
            block_below: Some("1em".to_owned()),
        }
    }
}

/// Paragraph layout: `#set par(justify: .., first-line-indent: .., ..)`.
#[derive(Debug, Clone)]
pub struct ParagraphSettings {
    pub justify: Option<bool>,
    pub first_line_indent: Option<String>,
    pub leading: Option<String>,
    pub spacing: Option<String>,
}

impl ParagraphSettings {
    /// The arguments of the paragraph rule.
    pub open spec fn parts(&self) -> Seq<Seq<char>> {
        (match self.justify {
            Some(j) => seq!["justify: "@ + bool_text(j)],
            None => Seq::empty(),
        }) + opt_part("first-line-indent: "@, self.first_line_indent) + opt_part(
            "leading: "@,
            self.leading,
        ) + opt_part("spacing: "@, self.spacing)
    }

    /// The paragraph rule.
    pub open spec fn typst(&self) -> Seq<char> {
        set_rule("par"@, self.parts())
    }

    pub fn to_typst(&self) -> (r: String)
        ensures
            r@ == self.typst(),
    {
        let mut parts: Vec<String> = Vec::new();
        match self.justify {
            Some(j) => {
                parts.push(labeled("justify: ", if j { "true" } else { "false" }));
            },
            None => {},
        }
        push_opt_part(&mut parts, "first-line-indent: ", &self.first_line_indent);
        push_opt_part(&mut parts, "leading: ", &self.leading);
        push_opt_part(&mut parts, "spacing: ", &self.spacing);
        assert(views(parts@) =~= self.parts());
        format_set_rule("par", &parts)
    }
}

impl ParagraphSettings {
    /// Justified, 2em first-line indent, 0.65em leading and spacing.
    pub open spec fn is_default(&self) -> bool {
        &&& self.justify == Some(true)
        &&& self.first_line_indent matches Some(i) && i@ == "2em"@
        &&& self.leading matches Some(l) && l@ == "0.65em"@
        &&& self.spacing matches Some(s) && s@ == "0.65em"@
    }
}

impl Default for ParagraphSettings {
    fn default() -> (r: Self)
        ensures
            r.is_default(),
    {
        ParagraphSettings {
            justify: Some(true),
            first_line_indent: Some("2em".to_owned()),
            leading: Some("0.65em".to_owned()),
            spacing: Some("0.65em".to_owned()),
        }
    }
}


/// Structured document settings that can be built programmatically.
///
/// Each sub-field covers a category of typst `#set` / `#show` rules. The
/// `extra_rules` vector provides an escape hatch for arbitrary rules that
/// don't fit the structured fields.
#[derive(Debug, Clone)]
pub struct StructuredSettings {
    pub page: PageSettings,
    pub text: TextSettings,
    pub math: MathSettings,
    pub paragraph: ParagraphSettings,
    pub extra_rules: Vec<String>,
}

impl StructuredSettings {
    /// Page, text, equation and paragraph rules, then the extra rules.
    pub open spec fn typst(&self) -> Seq<char> {
        self.page.typst() + self.text.typst() + self.math.typst() + self.paragraph.typst()
            + rules_text(views(self.extra_rules@))
    }

    /// Every category at its default, and no extra rules.
    pub open spec fn is_default(&self) -> bool {
        &&& self.page.is_default()
        &&& self.text.is_default()
        &&& self.math.is_default()
        &&& self.paragraph.is_default()
        &&& self.extra_rules@.len() == 0
    }

    pub fn to_typst(&self) -> (r: String)
        ensures
            r@ == self.typst(),
    {
        let mut out = String::new();
        let page = self.page.to_typst();
        push_str(&mut out, page.as_str());
        let text = self.text.to_typst();
        push_str(&mut out, text.as_str());
        let math = self.math.to_typst();
        push_str(&mut out, math.as_str());
        let par = self.paragraph.to_typst();
        push_str(&mut out, par.as_str());
        let ghost head = out@;
        let mut i: usize = 0;
        while i < self.extra_rules.len()
            invariant
                i <= self.extra_rules.len(),
                out@ == head + rules_text(views(self.extra_rules@).take(i as int)),
            decreases self.extra_rules.len() - i,
        {
            let rule = &self.extra_rules[i];
            push_str(&mut out, rule.as_str());
            if !str_ends_with(rule.as_str(), '\n') {
                out.push('\n');
            }
            assert(views(self.extra_rules@).take(i + 1).drop_last() == views(
                self.extra_rules@,
            ).take(i as int));
            assert(out@ =~= head + rules_text(views(self.extra_rules@).take(i + 1)));
            i = i + 1;
        }
        assert(views(self.extra_rules@).take(self.extra_rules.len() as int) == views(
            self.extra_rules@,
        ));
        out
    }

    pub fn set_body_fonts(&mut self, fonts: Vec<String>) -> (r: &mut Self)
        ensures
            *r == (StructuredSettings {
                text: TextSettings { font: fonts, ..old(self).text },
                ..*old(self)
            }),
            *final(self) == *final(r),
    {
        self.text.font = fonts;
        self
    }

    pub fn set_math_font(&mut self, font: &str) -> (r: &mut Self)
        ensures
            r.math.math_font matches Some(f) && f@ == font@,
            r.math.block_above == old(self).math.block_above,
            r.math.block_below == old(self).math.block_below,
            r.page == old(self).page,
            r.text == old(self).text,
            r.paragraph == old(self).paragraph,
            r.extra_rules == old(self).extra_rules,
            *final(self) == *final(r),
    {
        self.math.math_font = Some(font.to_owned());
        self
    }

    pub fn set_text_size(&mut self, size: &str) -> (r: &mut Self)
        ensures
            r.text.size matches Some(s) && s@ == size@,
            r.text.font == old(self).text.font,
            r.text.lang == old(self).text.lang,
            r.text.region == old(self).text.region,
            r.page == old(self).page,
            r.math == old(self).math,
            r.paragraph == old(self).paragraph,
            r.extra_rules == old(self).extra_rules,
            *final(self) == *final(r),
    {
        self.text.size = Some(size.to_owned());
        self
    }

    pub fn set_language(&mut self, lang: &str, region: Option<String>) -> (r: &mut Self)
        ensures
            r.text.lang matches Some(l) && l@ == lang@,
            r.text.region == region,
            r.text.font == old(self).text.font,
            r.text.size == old(self).text.size,
            r.page == old(self).page,
            r.math == old(self).math,
            r.paragraph == old(self).paragraph,
            r.extra_rules == old(self).extra_rules,
            *final(self) == *final(r),
    {
        self.text.lang = Some(lang.to_owned());
        self.text.region = region;
        self
    }

    pub fn set_page_auto(&mut self, margin: &str) -> (r: &mut Self)
        ensures
            r.page.width matches Some(w) && w@ == "auto"@,
            r.page.height matches Some(h) && h@ == "auto"@,
            r.page.margin matches Some(m) && m@ == margin@,
            r.text == old(self).text,
            r.math == old(self).math,
            r.paragraph == old(self).paragraph,
            r.extra_rules == old(self).extra_rules,
            *final(self) == *final(r),
    {
        self.page.width = Some("auto".to_owned());
        self.page.height = Some("auto".to_owned());
        self.page.margin = Some(margin.to_owned());
        self
    }

    pub fn set_paragraph(
        &mut self,
        justify: bool,
        indent: Option<String>,
        leading: Option<String>,
        spacing: Option<String>,
    ) -> (r: &mut Self)
        ensures
            r.paragraph == (ParagraphSettings {
                justify: Some(justify),
                first_line_indent: indent,
                leading,
                spacing,
            }),
            r.page == old(self).page,
            r.text == old(self).text,
            r.math == old(self).math,
            r.extra_rules == old(self).extra_rules,
            *final(self) == *final(r),
    {
        self.paragraph.justify = Some(justify);
        self.paragraph.first_line_indent = indent;
        self.paragraph.leading = leading;
        self.paragraph.spacing = spacing;
        self
    }
}

impl Default for StructuredSettings {
    fn default() -> (r: Self)
        ensures
            r.is_default(),
    {
        StructuredSettings {
            page: PageSettings::default(),
            text: TextSettings::default(),
            math: MathSettings::default(),
            paragraph: ParagraphSettings::default(),
            extra_rules: Vec::new(),
        }
    }
}


/// `s` as a raw settings block writes it: unchanged when empty or already
/// ending with a newline, else with a newline appended.
pub open spec fn raw_block_text(s: Seq<char>) -> Seq<char> {
    if s.len() == 0 || ends_with(s, '\n') {
        s
    } else {
        s.push('\n')
    }
}

/// Settings payload: either a raw typst snippet or a structured representation.
#[derive(Debug, Clone)]
pub enum SettingsBlock {
    /// Raw typst code loaded from a `.typ` file.
    Raw(String),
    /// Programmatically constructed settings.
    Structured(StructuredSettings),
}

impl SettingsBlock {
    /// The typst text of the block.
    pub open spec fn typst(&self) -> Seq<char> {
        match self {
            SettingsBlock::Raw(s) => raw_block_text(s@),
            SettingsBlock::Structured(s) => s.typst(),
        }
    }

    pub fn to_typst(&self) -> (r: String)
        ensures
            r@ == self.typst(),
    {
        match self {
            SettingsBlock::Raw(s) => {
                let mut r = String::new();
                push_str(&mut r, s.as_str());
                if !(s.as_str().is_empty() || str_ends_with(s.as_str(), '\n')) {
                    r.push('\n');
                }
                assert(r@ =~= self.typst());
                r
            },
            SettingsBlock::Structured(s) => s.to_typst(),
        }
    }
}

impl Default for SettingsBlock {
    fn default() -> (r: Self)
        ensures
            r matches SettingsBlock::Structured(s) && s.is_default(),
    {
        SettingsBlock::Structured(StructuredSettings::default())
    }
}

/// One `#import` line per import, each followed by a newline.
pub open spec fn imports_text(imports: Seq<PackageImport>) -> Seq<char>
    decreases imports.len(),
{
    if imports.len() == 0 {
        Seq::empty()
    } else {
        imports_text(imports.drop_last()) + import_directive(imports.last()@).push('\n')
    }
}

/// The imports that the lines state, in order.
pub open spec fn import_lines(ls: Seq<Seq<char>>) -> Seq<(Seq<char>, Seq<char>, Seq<char>)>
    decreases ls.len(),
{
    if ls.len() == 0 {
        Seq::empty()
    } else {
        import_lines(ls.drop_last()) + match parsed_import(ls.last()) {
            Some(p) => seq![p],
            None => Seq::empty(),
        }
    }
}

/// The lines that state no import, in order.
pub open spec fn setting_lines(ls: Seq<Seq<char>>) -> Seq<Seq<char>>
    decreases ls.len(),
{
    if ls.len() == 0 {
        Seq::empty()
    } else {
        setting_lines(ls.drop_last()) + match parsed_import(ls.last()) {
            Some(_) => Seq::empty(),
            None => seq![ls.last()],
        }
    }
}

/// `ls` without its trailing blank lines.
pub open spec fn drop_blank_tail(ls: Seq<Seq<char>>) -> Seq<Seq<char>>
    decreases ls.len(),
{
    if ls.len() > 0 && all_ws(ls.last()) {
        drop_blank_tail(ls.drop_last())
    } else {
        ls
    }
}

/// The lines joined by newlines with a final newline, or nothing.
pub open spec fn raw_settings(ls: Seq<Seq<char>>) -> Seq<char> {
    if ls.len() == 0 {
        Seq::empty()
    } else {
        join(ls, "\n"@).push('\n')
    }
}

/// Reading a `.typ` text sorts every line to exactly one side: the imports
/// it states, or the settings. Each settings line states no import, each
/// import read is one a line can carry, and lines in order stay in order
/// (the sides of a text are those of its first lines followed by those of
/// the rest).
pub proof fn law_lines_sorted_once(ls: Seq<Seq<char>>, more: Seq<Seq<char>>)
    ensures
        import_lines(ls).len() + setting_lines(ls).len() == ls.len(),
        forall|j: int|
            0 <= j < setting_lines(ls).len() ==> parsed_import(#[trigger] setting_lines(ls)[j])
                is None,
        forall|i: int|
            0 <= i < import_lines(ls).len() ==> import_fields_ok(#[trigger] import_lines(ls)[i]),
        import_lines(ls + more) == import_lines(ls) + import_lines(more),
        setting_lines(ls + more) == setting_lines(ls) + setting_lines(more),
    decreases ls.len(),
{
    lemma_import_lines_add(ls, more);
    if ls.len() > 0 {
        law_lines_sorted_once(ls.drop_last(), more);
        lemma_parsed_import(ls.last());
        let prev_i = import_lines(ls.drop_last());
        let prev_s = setting_lines(ls.drop_last());
        match parsed_import(ls.last()) {
            Some(p) => {
                assert(import_lines(ls) == prev_i + seq![p]);
                assert(setting_lines(ls) =~= prev_s);
                assert forall|i: int| 0 <= i < import_lines(ls).len() implies import_fields_ok(
                    #[trigger] import_lines(ls)[i],
                ) by {
                    if i < prev_i.len() {
                        assert(import_lines(ls)[i] == prev_i[i]);
                    }
                }
            },
            None => {
                assert(import_lines(ls) =~= prev_i);
                assert(setting_lines(ls) == prev_s + seq![ls.last()]);
                assert forall|j: int| 0 <= j < setting_lines(ls).len() implies parsed_import(
                    #[trigger] setting_lines(ls)[j],
                ) is None by {
                    if j < prev_s.len() {
                        assert(setting_lines(ls)[j] == prev_s[j]);
                    }
                }
            },
        }
    }
}

/// A complete template configuration: package imports + document settings.
///
/// The user's content is *not* part of this struct; it is appended by
/// [`TemplateConfig::apply_to`].
#[derive(Debug, Clone)]
pub struct TemplateConfig {
    pub imports: Vec<PackageImport>,
    pub settings: SettingsBlock,
}

impl TemplateConfig {
    /// The import lines, then the settings.
    pub open spec fn body(&self) -> Seq<char> {
        imports_text(self.imports@) + self.settings.typst()
    }

    /// The prelude: the import lines, then the settings, ending with a
    /// newline so that user content starts on a fresh line.
    pub open spec fn prelude(&self) -> Seq<char> {
        line_terminated(self.body())
    }

    /// Parse template configuration from a typst source string.
    ///
    /// Lines matching `#import "@..."` are extracted into structured
    /// [`PackageImport`] entries; everything else, without trailing blank
    /// lines, becomes a [`SettingsBlock::Raw`].
    pub fn from_typ_str(content: &str) -> (r: Self)
        ensures
            r.imports@.map_values(|p: PackageImport| p@) == import_lines(lines(content@)),
            r.settings matches SettingsBlock::Raw(s) && s@ == raw_settings(
                drop_blank_tail(setting_lines(lines(content@))),
            ),
    {
        let ls = split_lines(content);
        let ghost lv = views(ls@);
        let mut imports: Vec<PackageImport> = Vec::new();
        let mut settings_lines: Vec<String> = Vec::new();
        let mut i: usize = 0;
        while i < ls.len()
            invariant
                i <= ls.len(),
                lv == views(ls@),
                imports@.map_values(|p: PackageImport| p@) == import_lines(lv.take(i as int)),
                views(settings_lines@) == setting_lines(lv.take(i as int)),
            decreases ls.len() - i,
        {
            assert(lv.take(i + 1).drop_last() == lv.take(i as int));
            assert(lv.take(i + 1).last() == ls@[i as int]@);
            match PackageImport::parse(ls[i].as_str()) {
                Some(p) => {
                    let ghost before = imports@.map_values(|p: PackageImport| p@);
                    imports.push(p);
                    assert(imports@.map_values(|p: PackageImport| p@) =~= before + seq![p@]);
                    assert(views(settings_lines@) =~= setting_lines(lv.take(i + 1)));
                },
                None => {
                    let ghost before = views(settings_lines@);
                    settings_lines.push(ls[i].clone());
                    assert(views(settings_lines@) =~= before + seq![ls@[i as int]@]);
                    assert(imports@.map_values(|p: PackageImport| p@) =~= import_lines(
                        lv.take(i + 1),
                    ));
                },
            }
            i = i + 1;
        }
        assert(lv.take(ls.len() as int) == lv);
        let ghost all_settings = views(settings_lines@);
        while settings_lines.len() > 0 && str_is_blank(
            settings_lines[settings_lines.len() - 1].as_str(),
        )
            invariant
                drop_blank_tail(views(settings_lines@)) == drop_blank_tail(all_settings),
            decreases settings_lines.len(),
        {
            let ghost before = views(settings_lines@);
            settings_lines.pop();
            assert(views(settings_lines@) =~= before.drop_last());
        }
        assert(drop_blank_tail(views(settings_lines@)) == views(settings_lines@));
        let raw = if settings_lines.len() == 0 {
            String::new()
        } else {
            let mut s = join_strings(&settings_lines, "\n");
            s.push('\n');
            s
        };
        TemplateConfig { imports, settings: SettingsBlock::Raw(raw) }
    }

    /// Generate the complete typst prelude string (imports + settings).
    ///
    /// The returned string always ends with `\n` so that user content starts
    /// on a fresh line.
    pub fn to_typst_prelude(&self) -> (r: String)
        ensures
            r@ == self.prelude(),
            ends_with(r@, '\n'),
    {
        let mut out = String::new();
        let mut i: usize = 0;
        while i < self.imports.len()
            invariant
                i <= self.imports.len(),
                out@ == imports_text(self.imports@.take(i as int)),
            decreases self.imports.len() - i,
        {
            let line = self.imports[i].to_typst();
            push_str(&mut out, line.as_str());
            out.push('\n');
            assert(self.imports@.take(i + 1).drop_last() == self.imports@.take(i as int));
            i = i + 1;
        }
        assert(self.imports@.take(self.imports.len() as int) == self.imports@);
        let settings = self.settings.to_typst();
        push_str(&mut out, settings.as_str());
        if !str_ends_with(out.as_str(), '\n') {
            out.push('\n');
        }
        out
    }

    /// Apply this configuration to user source code (prelude + user content).
    ///
    /// Same return semantics as [`TemplateKind::apply_to`].
    pub fn apply_to(&self, source: &str) -> (r: (String, usize))
        ensures
            r.0@ == self.prelude() + source@,
            r.1 == count_char(self.prelude(), '\n'),
    {
        let prelude = self.to_typst_prelude();
        wrap_with_prelude(prelude.as_str(), source)
    }
}

impl Default for TemplateConfig {
    /// The built-in Chinese-optimized default (physica package, Noto Serif CJK
    /// SC fonts, 10.5 pt body text, justified paragraphs with 2 em indent).
    fn default() -> (r: Self)
        ensures
            r.imports@.len() == 1,
            r.imports@[0]@ == ("preview"@, "physica"@, "0.9.3"@),
            r.settings matches SettingsBlock::Structured(s) && s.is_default(),
    {
        TemplateConfig {
            imports: vec![PackageImport::new("preview", "physica", "0.9.3")],
            settings: SettingsBlock::default(),
        }
    }
}

/// Puts `prelude` in front of `content`; also returns the number of lines
/// that the prelude adds in front of the user's first line.
pub fn wrap_with_prelude(prelude: &str, content: &str) -> (r: (String, usize))
    ensures
        r.0@ == prelude@ + content@,
        r.1 == count_char(prelude@, '\n'),
{
    let prelude_lines = str_count_char(prelude, '\n');
    let mut wrapped = String::new();
    push_str(&mut wrapped, prelude);
    push_str(&mut wrapped, content);
    (wrapped, prelude_lines)
}

/// The user's content starts right after the prelude, on the line whose
/// number (counting from zero) is the prelude's line count, and the wrapped
/// source has exactly that many more lines than the user's.
pub proof fn law_content_follows_prelude_lines(prelude: Seq<char>, content: Seq<char>)
    ensures
        (prelude + content).skip(prelude.len() as int) == content,
        count_char((prelude + content).take(prelude.len() as int), '\n') == count_char(
            prelude,
            '\n',
        ),
        count_char(prelude + content, '\n') == count_char(prelude, '\n') + count_char(
            content,
            '\n',
        ),
{
    assert((prelude + content).skip(prelude.len() as int) =~= content);
    assert((prelude + content).take(prelude.len() as int) =~= prelude);
    lemma_count_char_add(prelude, content, '\n');
}

/// Which template `TemplateKind::apply_to` puts in front of user input.
#[derive(Debug, Clone, Copy, PartialEq, Eq, Structural)]
pub enum TemplateKind {
    /// No wrapping — compile source as-is.
    Raw,
    /// Template via quiconf package.
    Quiconf,
    /// Default Chinese-optimized template (legacy structured settings).
    DeprecatedDefault,
}

impl Default for TemplateKind {
    fn default() -> (r: Self)
        ensures
            r == TemplateKind::Raw,
    {
        TemplateKind::Raw
    }
}

/// The preludes that the templates use, as loaded from the resource tree.
pub struct Preludes {
    /// Text put in front of user input by `TemplateKind::Quiconf`.
    pub quiconf: String,
    /// Configuration behind `TemplateKind::DeprecatedDefault`.
    pub deprecated_default: TemplateConfig,
}

impl TemplateKind {
    /// The prelude of this template.
    pub open spec fn prelude(self, preludes: &Preludes) -> Seq<char> {
        match self {
            TemplateKind::Raw => Seq::empty(),
            TemplateKind::Quiconf => preludes.quiconf@,
            TemplateKind::DeprecatedDefault => preludes.deprecated_default.prelude(),
        }
    }

    /// Apply this template to user source code.
    ///
    /// Returns `(wrapped_source, prelude_line_count)`. The prelude line count is
    /// the number of lines injected before the user's content, used by the renderer
    /// to shift diagnostic line numbers back into the user's coordinate system.
    pub fn apply_to(self, source: &str, preludes: &Preludes) -> (r: (String, usize))
        ensures
            r.0@ == self.prelude(preludes) + source@,
            r.1 == count_char(self.prelude(preludes), '\n'),
    {
        match self {
            TemplateKind::Raw => {
                assert(Seq::<char>::empty() + source@ =~= source@);
                (source.to_owned(), 0)
            },
            TemplateKind::DeprecatedDefault => preludes.deprecated_default.apply_to(source),
            TemplateKind::Quiconf => wrap_with_prelude(preludes.quiconf.as_str(), source),
        }
    }
}


/// A newline at the end of a text is one of its lines' ends.
proof fn lemma_ends_with_counts(s: Seq<char>)
    requires
        ends_with(s, '\n'),
    ensures
        count_char(s, '\n') >= 1,
{
}

/// What each template puts in front of the user's source. Raw adds nothing;
/// the deprecated default adds its configuration's prelude, which is never
/// empty and ends with a newline, so it adds at least one line; quiconf adds
/// its prelude text. The user's source always comes last, unchanged.
pub proof fn law_template_preludes(preludes: &Preludes, source: Seq<char>)
    ensures
        TemplateKind::Raw.prelude(preludes) + source == source,
        TemplateKind::DeprecatedDefault.prelude(preludes) == preludes.deprecated_default.prelude(),
        TemplateKind::DeprecatedDefault.prelude(preludes).len() > 0,
        ends_with(TemplateKind::DeprecatedDefault.prelude(preludes), '\n'),
        count_char(TemplateKind::DeprecatedDefault.prelude(preludes), '\n') >= 1,
        TemplateKind::DeprecatedDefault.prelude(preludes) + source != source,
        TemplateKind::Quiconf.prelude(preludes) == preludes.quiconf@,
        forall|k: TemplateKind|
            (#[trigger] k.prelude(preludes) + source).skip(k.prelude(preludes).len() as int)
                == source,
{
    law_prelude_newline_terminated(&preludes.deprecated_default);
    let p = TemplateKind::DeprecatedDefault.prelude(preludes);
    lemma_ends_with_counts(p);
    assert(Seq::<char>::empty() + source =~= source);
    assert((p + source).len() != source.len());
    assert forall|k: TemplateKind| (#[trigger] k.prelude(preludes) + source).skip(
        k.prelude(preludes).len() as int,
    ) == source by {
        assert((k.prelude(preludes) + source).skip(k.prelude(preludes).len() as int) =~= source);
    }
}

/// Empty, or ending with a newline.
pub open spec fn newline_terminated(s: Seq<char>) -> bool {
    s.len() == 0 || ends_with(s, '\n')
}

proof fn lemma_newline_terminated_add(a: Seq<char>, b: Seq<char>)
    requires
        newline_terminated(a),
        newline_terminated(b),
    ensures
        newline_terminated(a + b),
        b.len() > 0 ==> ends_with(a + b, '\n'),
        a.len() > 0 ==> ends_with(a + b, '\n'),
{
    if b.len() == 0 {
        assert(a + b =~= a);
    } else {
        assert((a + b).last() == b.last());
    }
}

proof fn lemma_ends_with_suffix(x: Seq<char>, suffix: Seq<char>)
    requires
        ends_with(suffix, '\n'),
    ensures
        ends_with(x + suffix, '\n'),
{
    assert((x + suffix).last() == suffix.last());
}

proof fn lemma_set_rule_terminated(directive: Seq<char>, parts: Seq<Seq<char>>)
    ensures
        newline_terminated(set_rule(directive, parts)),
{
    reveal_strlit(")\n");
    reveal_strlit("\n)\n");
    lemma_ends_with_suffix("#set "@ + directive + "("@ + join(parts, ", "@), ")\n"@);
    lemma_ends_with_suffix("#set "@ + directive + "(\n  "@ + join(parts, ",\n  "@), "\n)\n"@);
}

proof fn lemma_math_terminated(m: &MathSettings)
    ensures
        newline_terminated(m.typst()),
{
    reveal_strlit("\")\n");
    reveal_strlit(")\n");
    let head = match m.math_font {
        Some(f) => "#show math.equation: set text(font: \""@ + f@ + "\")\n"@,
        None => Seq::empty(),
    };
    if let Some(f) = m.math_font {
        lemma_ends_with_suffix("#show math.equation: set text(font: \""@ + f@, "\")\n"@);
    }
    let parts = m.block_parts();
    if parts.len() > 0 {
        lemma_ends_with_suffix(
            "#show math.equation.where(block: true): set block("@ + join(parts, ", "@),
            ")\n"@,
        );
    }
    lemma_newline_terminated_add(head, block_rule(parts));
}

proof fn lemma_rules_terminated(rules: Seq<Seq<char>>)
    ensures
        newline_terminated(rules_text(rules)),
    decreases rules.len(),
{
    if rules.len() > 0 {
        lemma_rules_terminated(rules.drop_last());
        let r = rules.last();
        assert(newline_terminated(line_terminated(r)));
        lemma_newline_terminated_add(rules_text(rules.drop_last()), line_terminated(r));
    }
}

proof fn lemma_imports_terminated(imports: Seq<PackageImport>)
    ensures
        newline_terminated(imports_text(imports)),
        imports.len() > 0 ==> ends_with(imports_text(imports), '\n'),
    decreases imports.len(),
{
    if imports.len() > 0 {
        lemma_imports_terminated(imports.drop_last());
        let line = import_directive(imports.last()@).push('\n');
        lemma_newline_terminated_add(imports_text(imports.drop_last()), line);
    }
}

/// The prelude of a configuration always ends with a newline, so that user
/// content starts on a fresh line; beyond the imports and settings it adds
/// nothing, except that newline when both are empty.
pub proof fn law_prelude_newline_terminated(config: &TemplateConfig)
    ensures
        ends_with(config.prelude(), '\n'),
        config.body().len() > 0 ==> config.prelude() == config.body(),
        config.body().len() == 0 ==> config.prelude() == seq!['\n'],
{
    lemma_imports_terminated(config.imports@);
    match &config.settings {
        SettingsBlock::Raw(s) => {},
        SettingsBlock::Structured(st) => {
            lemma_set_rule_terminated("page"@, st.page.parts());
            lemma_set_rule_terminated("text"@, st.text.parts());
            lemma_math_terminated(&st.math);
            lemma_set_rule_terminated("par"@, st.paragraph.parts());
            lemma_rules_terminated(views(st.extra_rules@));
            let a = st.page.typst();
            let b = st.text.typst();
            let c = st.math.typst();
            let d = st.paragraph.typst();
            let e = rules_text(views(st.extra_rules@));
            lemma_newline_terminated_add(a, b);
            lemma_newline_terminated_add(a + b, c);
            lemma_newline_terminated_add(a + b + c, d);
            lemma_newline_terminated_add(a + b + c + d, e);
        },
    }
    lemma_newline_terminated_add(imports_text(config.imports@), config.settings.typst());
    assert(newline_terminated(config.body()));
    if config.body().len() == 0 {
        assert(config.prelude() =~= seq!['\n']);
    }
}

// ---------------------------------------------------------------------------
// Reading a prelude back
// ---------------------------------------------------------------------------

/// No field of the import holds a line break.
pub open spec fn import_single_line(p: (Seq<char>, Seq<char>, Seq<char>)) -> bool {
    !p.0.contains('\n') && !p.1.contains('\n') && !p.2.contains('\n')
}

/// The import lines of a prelude, one per import.
pub open spec fn directives(imports: Seq<PackageImport>) -> Seq<Seq<char>> {
    imports.map_values(|p: PackageImport| import_directive(p@))
}

proof fn lemma_imports_text_terminated(imports: Seq<PackageImport>)
    ensures
        imports_text(imports) == terminated_lines(directives(imports)),
    decreases imports.len(),
{
    if imports.len() > 0 {
        lemma_imports_text_terminated(imports.drop_last());
        assert(directives(imports).drop_last() =~= directives(imports.drop_last()));
        assert(directives(imports).last() == import_directive(imports.last()@));
    } else {
        assert(directives(imports) =~= Seq::<Seq<char>>::empty());
    }
}

/// An import line of a well-formed, single-line import is a plain line.
proof fn lemma_directive_plain(p: (Seq<char>, Seq<char>, Seq<char>))
    requires
        import_single_line(p),
    ensures
        plain_line(import_directive(p)),
{
    lemma_literals();
    let d = import_directive(p);
    let head = "#import \""@ + seq!['@'];
    let k0 = head.len() as int;
    let k1 = k0 + p.0.len() + 1;
    let k2 = k1 + p.1.len() + 1;
    assert(d =~= head + p.0 + seq!['/'] + p.1 + seq![':'] + p.2 + seq!['"']);
    assert forall|j: int| 0 <= j < d.len() implies d[j] != '\n' by {
        if j < k0 {
            assert(d[j] == head[j]);
        } else if j < k0 + p.0.len() {
            assert(d[j] == p.0[j - k0]);
            if d[j] == '\n' {
                assert(p.0.contains('\n'));
            }
        } else if j < k1 {
            assert(d[j] == '/');
        } else if j < k1 + p.1.len() {
            assert(d[j] == p.1[j - k1]);
            if d[j] == '\n' {
                assert(p.1.contains('\n'));
            }
        } else if j < k2 {
            assert(d[j] == ':');
        } else if j < k2 + p.2.len() {
            assert(d[j] == p.2[j - k2]);
            if d[j] == '\n' {
                assert(p.2.contains('\n'));
            }
        } else {
            assert(d[j] == '"');
        }
    }
    assert(d.last() == '"');
}

proof fn lemma_import_lines_add(a: Seq<Seq<char>>, b: Seq<Seq<char>>)
    ensures
        import_lines(a + b) == import_lines(a) + import_lines(b),
        setting_lines(a + b) == setting_lines(a) + setting_lines(b),
    decreases b.len(),
{
    if b.len() == 0 {
        assert(a + b =~= a);
        assert(import_lines(a) + import_lines(b) =~= import_lines(a));
        assert(setting_lines(a) + setting_lines(b) =~= setting_lines(a));
    } else {
        lemma_import_lines_add(a, b.drop_last());
        assert((a + b).drop_last() =~= a + b.drop_last());
        assert((a + b).last() == b.last());
        assert(import_lines(a + b) =~= import_lines(a) + import_lines(b));
        assert(setting_lines(a + b) =~= setting_lines(a) + setting_lines(b));
    }
}

/// The import lines of a prelude read back as its imports, and as no settings.
proof fn lemma_directives_read_back(imports: Seq<PackageImport>)
    requires
        forall|i: int|
            0 <= i < imports.len() ==> import_fields_ok(#[trigger] imports[i]@)
                && import_single_line(imports[i]@),
    ensures
        import_lines(directives(imports)) == imports.map_values(|p: PackageImport| p@),
        setting_lines(directives(imports)) == Seq::<Seq<char>>::empty(),
        forall|j: int| 0 <= j < imports.len() ==> plain_line(#[trigger] directives(imports)[j]),
    decreases imports.len(),
{
    if imports.len() > 0 {
        let init = imports.drop_last();
        assert forall|i: int| 0 <= i < init.len() implies import_fields_ok(#[trigger] init[i]@)
            && import_single_line(init[i]@) by {
            assert(init[i] == imports[i]);
        }
        lemma_directives_read_back(init);
        let p = imports.last()@;
        assert(import_fields_ok(imports[imports.len() - 1]@));
        law_import_roundtrip(p);
        let ds = directives(imports);
        assert(ds.drop_last() =~= directives(init));
        assert(ds.last() == import_directive(p));
        assert(import_lines(ds) =~= imports.map_values(|q: PackageImport| q@));
        assert(setting_lines(ds) =~= Seq::<Seq<char>>::empty());
        assert forall|j: int| 0 <= j < imports.len() implies plain_line(#[trigger] ds[j]) by {
            assert(ds[j] == import_directive(imports[j]@));
            lemma_directive_plain(imports[j]@);
        }
    } else {
        assert(directives(imports) =~= Seq::<Seq<char>>::empty());
        assert(imports.map_values(|p: PackageImport| p@) =~= Seq::<(Seq<char>, Seq<char>, Seq<char>)>::empty());
    }
}

/// Lines that state no import read back as settings only.
proof fn lemma_settings_read_back(ls: Seq<Seq<char>>)
    requires
        forall|j: int| 0 <= j < ls.len() ==> parsed_import(#[trigger] ls[j]) is None,
    ensures
        import_lines(ls) == Seq::<(Seq<char>, Seq<char>, Seq<char>)>::empty(),
        setting_lines(ls) == ls,
    decreases ls.len(),
{
    if ls.len() > 0 {
        let init = ls.drop_last();
        assert forall|j: int| 0 <= j < init.len() implies parsed_import(#[trigger] init[j]) is None by {
            assert(init[j] == ls[j]);
        }
        lemma_settings_read_back(init);
        assert(parsed_import(ls[ls.len() - 1]) is None);
        assert(import_lines(ls) =~= Seq::<(Seq<char>, Seq<char>, Seq<char>)>::empty());
        assert(setting_lines(ls) =~= ls);
    }
}

/// Reading a prelude back gives its configuration: `from_typ_str` applied to
/// what `to_typst_prelude` writes recovers the same imports and the same raw
/// settings text. This holds for imports a line can carry (no line break in
/// them) and raw settings made of lines that hold no line break, do not end
/// in a carriage return, state no import, and do not end in a blank line.
pub proof fn law_prelude_roundtrip(config: &TemplateConfig, settings: Seq<Seq<char>>)
    requires
        forall|i: int|
            0 <= i < config.imports@.len() ==> import_fields_ok(#[trigger] config.imports@[i]@)
                && import_single_line(config.imports@[i]@),
        config.settings matches SettingsBlock::Raw(s) && s@ == raw_settings(settings),
        forall|j: int|
            0 <= j < settings.len() ==> plain_line(#[trigger] settings[j]) && parsed_import(
                settings[j],
            ) is None,
        settings.len() == 0 || !all_ws(settings.last()),
    ensures
        import_lines(lines(config.prelude())) == config.imports@.map_values(|p: PackageImport| p@),
        raw_settings(drop_blank_tail(setting_lines(lines(config.prelude())))) == raw_settings(
            settings,
        ),
{
    let imports = config.imports@;
    let ds = directives(imports);
    lemma_directives_read_back(imports);
    lemma_settings_read_back(settings);
    lemma_imports_text_terminated(imports);
    // The raw settings text is the terminated settings lines.
    let raw = raw_settings(settings);
    if settings.len() > 0 {
        lemma_join_newline_terminated(settings);
        assert(ends_with(raw, '\n'));
    } else {
        assert(terminated_lines(settings) =~= Seq::<char>::empty());
    }
    assert(raw == terminated_lines(settings));
    assert(config.settings.typst() == raw);
    // The imports and settings are the terminated lines of both runs.
    lemma_terminated_lines_add(ds, settings);
    assert(config.body() == terminated_lines(ds + settings));
    let all = ds + settings;
    assert forall|j: int| 0 <= j < all.len() implies plain_line(#[trigger] all[j]) by {
        if j < ds.len() {
            assert(all[j] == ds[j]);
        } else {
            assert(all[j] == settings[j - ds.len()]);
        }
    }
    lemma_lines_terminated(all);
    lemma_import_lines_add(ds, settings);
    if config.body().len() > 0 {
        assert(config.prelude() == config.body());
        assert(import_lines(lines(config.prelude())) =~= imports.map_values(
            |p: PackageImport| p@,
        ));
        assert(setting_lines(lines(config.prelude())) =~= settings);
        assert(drop_blank_tail(settings) == settings);
    } else {
        // Nothing to write: the prelude is a single empty line.
        assert(lines(Seq::<char>::empty()) =~= Seq::<Seq<char>>::empty());
        assert(all.len() == 0);
        assert(ds.len() == 0 && settings.len() == 0);
        let empty = Seq::<char>::empty();
        assert(config.prelude() =~= empty.push('\n'));
        lemma_lines_single(empty);
        lemma_parsed_import(empty);
        assert(trim(empty) =~= empty);
        lemma_literals();
        assert(!"#import"@.is_prefix_of(trim(empty)));
        let ls = lines(config.prelude());
        assert(ls =~= seq![empty]);
        assert(ls.drop_last() =~= Seq::<Seq<char>>::empty());
        assert(import_lines(ls) =~= Seq::<(Seq<char>, Seq<char>, Seq<char>)>::empty());
        assert(imports.map_values(|p: PackageImport| p@) =~= Seq::<
            (Seq<char>, Seq<char>, Seq<char>),
        >::empty());
        assert(setting_lines(ls) =~= seq![empty]);
        assert(all_ws(empty));
        assert(seq![empty].last() == empty);
        assert(seq![empty].drop_last() =~= Seq::<Seq<char>>::empty());
        assert(drop_blank_tail(Seq::<Seq<char>>::empty()) =~= Seq::<Seq<char>>::empty());
        assert(drop_blank_tail(seq![empty]) =~= Seq::<Seq<char>>::empty());
        assert(settings =~= Seq::<Seq<char>>::empty());
    }
}

} // verus!
