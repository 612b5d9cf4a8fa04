//! The native-trit flag store: an append-only JSON-lines file where `trit` is a
//! first-class signed field.
//!
//! The file itself is read and written outside this crate. What is decided here is the
//! framing: a remembered flag's JSON text becomes one line ending in `'\n'`, and
//! recalling splits the file into lines as `BufRead::lines` does (a `'\n'` ends a line,
//! and a `'\r'` just before it is dropped), skipping lines made only of whitespace. Also
//! here is the reconfirmation count over the flags recalled from a store.

use crate::flag::Flag;
use vstd::prelude::*;

verus! {

broadcast use vstd::string::group_string_axioms;

/// Appends `c` to `s`.
///
/// Calls `String::push`, which its documentation describes as appending the given char
/// to the end of the string; the contract states exactly that.
#[verifier::external_body]
fn push_char(s: &mut String, c: char)
    ensures
        final(s)@ == old(s)@.push(c),
{
    s.push(c);
}

/// Unicode's White_Space property (what `char::is_whitespace` and `str::trim` go by):
/// U+0009..U+000D, U+0020, U+0085, U+00A0, U+1680, U+2000..U+200A, U+2028, U+2029,
/// U+202F, U+205F and U+3000.
pub open spec fn is_white_space(c: char) -> bool {
    let v = c as u32;
    ||| 0x09 <= v <= 0x0D
    ||| v == 0x20
    ||| v == 0x85
    ||| v == 0xA0
    ||| v == 0x1680
    ||| 0x2000 <= v <= 0x200A
    ||| v == 0x2028
    ||| v == 0x2029
    ||| v == 0x202F
    ||| v == 0x205F
    ||| v == 0x3000
}

/// A line is blank when it has no character but whitespace (the empty line included).
pub open spec fn is_blank(l: Seq<char>) -> bool {
    forall|i: int| 0 <= i < l.len() ==> is_white_space(#[trigger] l[i])
}

/// Whether `c` has the Unicode White_Space property.
pub fn is_whitespace(c: char) -> (b: bool)
    ensures
        b == is_white_space(c),
{
    let v = c as u32;
    (0x09 <= v && v <= 0x0D) || v == 0x20 || v == 0x85 || v == 0xA0 || v == 0x1680 || (0x2000
        <= v && v <= 0x200A) || v == 0x2028 || v == 0x2029 || v == 0x202F || v == 0x205F || v
        == 0x3000
}

/// The position of the first `'\n'` in `s`, or the length of `s` when there is none.
pub open spec fn line_end(s: Seq<char>) -> nat
    decreases s.len(),
{
    if s.len() == 0 || s[0] == '\n' {
        0
    } else {
        1 + line_end(s.drop_first())
    }
}

/// A line read up to a `'\n'` loses one `'\r'` that stood just before it.
pub open spec fn without_cr(l: Seq<char>) -> Seq<char> {
    if l.len() > 0 && l.last() == '\r' {
        l.drop_last()
    } else {
        l
    }
}

/// The lines of `s`, as `BufRead::lines` (and `str::lines`) yield them: each `'\n'` ends
/// a line, which loses a `'\r'` just before that `'\n'`; text after the last `'\n'` is
/// a last line, kept as it is; a final `'\n'` starts no empty line.
pub open spec fn lines_of(s: Seq<char>) -> Seq<Seq<char>>
    decreases s.len(),
{
    if s.len() == 0 {
        Seq::empty()
    } else {
        let k = line_end(s);
        if k >= s.len() {
            seq![s]
        } else {
            seq![without_cr(s.take(k as int))] + lines_of(s.skip(k + 1 as int))
        }
    }
}

/// The records a store file holds: its lines that are not blank, in file order.
pub open spec fn records_of(s: Seq<char>) -> Seq<Seq<char>> {
    lines_of(s).filter(|l: Seq<char>| !is_blank(l))
}

/// A file is well framed when it is empty or its last line is terminated.
pub open spec fn is_framed(s: Seq<char>) -> bool {
    s.len() == 0 || s.last() == '\n'
}

/// A text fits on one record line when it holds no `'\n'`, is not blank, and does not
/// end with `'\r'` (which reading back would drop).
pub open spec fn fits_one_line(l: Seq<char>) -> bool {
    &&& !l.contains('\n')
    &&& !is_blank(l)
    &&& l.last() != '\r'
}

/// Whether a recalled flag reconfirms: it affirms (trit = +1) and its note starts with
/// the prefix.
pub open spec fn is_reconfirmation(f: Flag, note_prefix: Seq<char>) -> bool {
    f.trit == 1 && note_prefix.is_prefix_of(f.note@)
}

/// How many of the flags reconfirm for the prefix.
pub open spec fn reconfirmations(flags: Seq<Flag>, note_prefix: Seq<char>) -> nat {
    flags.filter(|f: Flag| is_reconfirmation(f, note_prefix)).len()
}

/// Whether `s` starts with `prefix`.
pub fn starts_with(s: &str, prefix: &str) -> (b: bool)
    ensures
        b == prefix@.is_prefix_of(s@),
{
    let mut sc = s.chars();
    let mut pc = prefix.chars();
    let ghost mut k: int = 0;
    loop
        invariant
            0 <= k <= prefix@.len(),
            k <= s@.len(),
            vstd::std_specs::iter::IteratorSpec::remaining(&sc) == s@.skip(k),
            vstd::std_specs::iter::IteratorSpec::remaining(&pc) == prefix@.skip(k),
            prefix@.take(k) == s@.take(k),
        decreases prefix@.len() - k,
    {
        match pc.next() {
            None => {
                assert(prefix@.take(k) =~= prefix@);
                return true;
            },
            Some(p) => {
                match sc.next() {
                    None => {
                        return false;
                    },
                    Some(c) => {
                        if c != p {
                            assert(s@[k] == c && prefix@[k] == p);
                            return false;
                        }
                        proof {
                            assert(prefix@.take(k + 1) =~= prefix@.take(k).push(p));
                            assert(s@.take(k + 1) =~= s@.take(k).push(c));
                            assert(s@.skip(k).drop_first() =~= s@.skip(k + 1));
                            assert(prefix@.skip(k).drop_first() =~= prefix@.skip(k + 1));
                            k = k + 1;
                        }
                    },
                }
            },
        }
    }
}

/// Whether a flag's note starts with the prefix.
pub open spec fn note_matches(f: Flag, note_prefix: Seq<char>) -> bool {
    note_prefix.is_prefix_of(f.note@)
}

/// The recalled flags whose note starts with `note_prefix`, in recall order.
pub fn matching_note_prefix(recalled: &[Flag], note_prefix: &str) -> (flags: Vec<Flag>)
    ensures
        flags@ == recalled@.filter(|f: Flag| note_matches(f, note_prefix@)),
        flags@ == recalled@.filter(|f: Flag| note_prefix@.is_prefix_of(f.note@)),
{
    proof {
        lemma_note_matches_is_prefix(note_prefix@);
    }
    let ghost pred = |f: Flag| note_matches(f, note_prefix@);
    let mut out: Vec<Flag> = Vec::new();
    let mut i: usize = 0;
    while i < recalled.len()
        invariant
            i <= recalled@.len(),
            out@ == recalled@.take(i as int).filter(pred),
            pred == (|f: Flag| note_matches(f, note_prefix@)),
        decreases recalled@.len() - i,
    {
        proof {
            reveal(Seq::filter);
            assert(recalled@.take(i + 1).drop_last() =~= recalled@.take(i as int));
            assert(recalled@.take(i + 1).last() == recalled@[i as int]);
        }
        let hit = starts_with(recalled[i].note.as_str(), note_prefix);
        if hit {
            out.push(recalled[i].clone());
        }
        i = i + 1;
    }
    proof {
        assert(recalled@.take(recalled@.len() as int) =~= recalled@);
    }
    out
}

/// Matching a prefix is being a prefix of the note, for every prefix; a note equal to the
/// prefix matches it.
pub proof fn lemma_note_matches_is_prefix(note_prefix: Seq<char>)
    ensures
        (|f: Flag| note_matches(f, note_prefix)) == (|f: Flag| note_prefix.is_prefix_of(f.note@)),
        forall|f: Flag| f.note@ == note_prefix ==> #[trigger] note_matches(f, note_prefix),
{
    assert((|f: Flag| note_matches(f, note_prefix)) =~= (|f: Flag| note_prefix.is_prefix_of(
        f.note@,
    )));
    assert forall|f: Flag| f.note@ == note_prefix implies #[trigger] note_matches(
        f,
        note_prefix,
    ) by {
        assert(note_prefix.take(note_prefix.len() as int) =~= note_prefix);
    }
}

/// Every recalled flag whose note starts with the prefix (a note equal to it included)
/// is in the filtered result.
pub proof fn lemma_matching_keeps_every_match(recalled: Seq<Flag>, note_prefix: Seq<char>, i: int)
    requires
        0 <= i < recalled.len(),
        note_prefix.is_prefix_of(recalled[i].note@),
    ensures
        recalled.filter(|f: Flag| note_prefix.is_prefix_of(f.note@)).contains(recalled[i]),
{
    recalled.lemma_filter_contains(|f: Flag| note_prefix.is_prefix_of(f.note@), i);
}

/// A flag reconfirms exactly when its trit is +1 and its note starts with the prefix,
/// for every prefix; an affirm whose note equals the prefix reconfirms.
pub proof fn lemma_reconfirmation_is_affirm_with_prefix(recalled: Seq<Flag>, note_prefix: Seq<char>)
    ensures
        reconfirmations(recalled, note_prefix) == recalled.filter(
            |f: Flag| f.trit == 1 && note_prefix.is_prefix_of(f.note@),
        ).len(),
        forall|f: Flag|
            f.trit == 1 && f.note@ == note_prefix ==> #[trigger] is_reconfirmation(f, note_prefix),
{
    assert((|f: Flag| is_reconfirmation(f, note_prefix)) =~= (|f: Flag| f.trit == 1
        && note_prefix.is_prefix_of(f.note@)));
    assert forall|f: Flag| f.trit == 1 && f.note@ == note_prefix implies #[trigger] is_reconfirmation(
        f,
        note_prefix,
    ) by {
        assert(note_prefix.take(note_prefix.len() as int) =~= note_prefix);
    }
}

/// An empty prefix matches every note: filtering by it gives back all recalled flags.
pub proof fn lemma_empty_prefix_keeps_all(recalled: Seq<Flag>)
    ensures
        recalled.filter(|f: Flag| note_matches(f, Seq::<char>::empty())) == recalled,
    decreases recalled.len(),
{
    reveal(Seq::filter);
    if recalled.len() > 0 {
        lemma_empty_prefix_keeps_all(recalled.drop_last());
        assert(note_matches(recalled.last(), Seq::<char>::empty()));
        assert(recalled.drop_last().push(recalled.last()) =~= recalled);
    }
}

/// Counting after a remember: when one more flag is recalled after the others, the
/// reconfirmation count grows by one exactly when that flag affirms under the prefix, and
/// is unchanged otherwise.
pub proof fn lemma_reconfirmations_after_remember(
    recalled: Seq<Flag>,
    remembered: Flag,
    note_prefix: Seq<char>,
)
    ensures
        reconfirmations(recalled.push(remembered), note_prefix) == reconfirmations(
            recalled,
            note_prefix,
        ) + (if is_reconfirmation(remembered, note_prefix) {
            1nat
        } else {
            0nat
        }),
{
    reveal(Seq::filter);
    assert(recalled.push(remembered).drop_last() =~= recalled);
    assert(recalled.push(remembered).last() == remembered);
}

/// A store of flags at a path.
pub struct FlagStore {
    path: String,
}

impl FlagStore {
    /// The path of the store's file.
    pub closed spec fn location(self) -> Seq<char> {
        self.path@
    }

    /// A store whose file is at `path`. Nothing is read or created yet.
    pub fn open(path: &str) -> (s: Self)
        ensures
            s.location() == path@,
    {
        FlagStore { path: path.to_owned() }
    }

    /// The path of the store's file.
    pub fn path(&self) -> (p: &str)
        ensures
            p@ == self.location(),
    {
        self.path.as_str()
    }

    /// How many affirms (trit = +1) whose note starts with `note_prefix` are among
    /// `recalled`: the crate's notion of "reconfirmed across multiple recalls" for the
    /// badge context. The caller supplies the flags recalled from this store's file (the
    /// file is read outside this crate); the count is over exactly the flags given. It is
    /// reported as a `u32`, so it wraps modulo 2^32.
    pub fn reconfirm_count(&self, recalled: &[Flag], note_prefix: &str) -> (n: u32)
        ensures
            n as int == reconfirmations(recalled@, note_prefix@) % 0x1_0000_0000,
            n as int == recalled@.filter(
                |f: Flag| f.trit == 1 && note_prefix@.is_prefix_of(f.note@),
            ).len() % 0x1_0000_0000,
    {
        proof {
            lemma_reconfirmation_is_affirm_with_prefix(recalled@, note_prefix@);
        }
        let ghost pred = |f: Flag| is_reconfirmation(f, note_prefix@);
        let mut count: usize = 0;
        let mut i: usize = 0;
        while i < recalled.len()
            invariant
                i <= recalled@.len(),
                count == recalled@.take(i as int).filter(pred).len(),
                count <= i,
                pred == (|f: Flag| is_reconfirmation(f, note_prefix@)),
            decreases recalled@.len() - i,
        {
            let f = &recalled[i];
            proof {
                reveal(Seq::filter);
                assert(recalled@.take(i + 1).drop_last() =~= recalled@.take(i as int));
                assert(recalled@.take(i + 1).last() == recalled@[i as int]);
            }
            if f.trit == 1 && starts_with(f.note.as_str(), note_prefix) {
                count = count + 1;
            }
            i = i + 1;
        }
        proof {
            assert(recalled@.take(recalled@.len() as int) =~= recalled@);
        }
        ((count as u64) % 0x1_0000_0000u64) as u32
    }
}

/// The line that remembering a flag appends to the store: the flag's JSON text followed
/// by `'\n'`. Earlier lines are never rewritten.
pub fn record_line(json: &str) -> (line: String)
    ensures
        line@ == json@.push('\n'),
{
    let mut line = json.to_owned();
    push_char(&mut line, '\n');
    line
}

/// `line_end` finds the first `'\n'`: when none of the first `k` characters is a
/// newline and position `k` is one (or the end), the line ends at `k`.
proof fn lemma_line_end_at(t: Seq<char>, k: int)
    requires
        0 <= k <= t.len(),
        forall|j: int| 0 <= j < k ==> t[j] != '\n',
        k == t.len() || t[k] == '\n',
    ensures
        line_end(t) == k,
    decreases k,
{
    if k > 0 {
        assert(t[0] != '\n');
        lemma_line_end_at(t.drop_first(), k - 1);
    }
}

/// Dropping a `'\r'` (itself whitespace) does not change whether a line is blank.
proof fn lemma_blank_without_cr(x: Seq<char>)
    ensures
        is_blank(without_cr(x)) == is_blank(x),
{
    if x.len() > 0 && x.last() == '\r' {
        let y = x.drop_last();
        assert(is_white_space('\r'));
        if is_blank(y) {
            assert forall|i: int| 0 <= i < x.len() implies is_white_space(#[trigger] x[i]) by {
                if i < y.len() {
                    assert(x[i] == y[i]);
                }
            }
        }
        if is_blank(x) {
            assert forall|i: int| 0 <= i < y.len() implies is_white_space(#[trigger] y[i]) by {
                assert(x[i] == y[i]);
            }
        }
    }
}

/// Pushing one line onto the lines read so far extends the records exactly when the line
/// is not blank.
proof fn lemma_records_push(done: Seq<Seq<char>>, l: Seq<char>)
    ensures
        done.push(l).filter(|l: Seq<char>| !is_blank(l)) == (if is_blank(l) {
            done.filter(|l: Seq<char>| !is_blank(l))
        } else {
            done.filter(|l: Seq<char>| !is_blank(l)).push(l)
        }),
{
    reveal(Seq::filter);
    assert(done.push(l).drop_last() =~= done);
}

/// The records of a store file's text, in file order: its lines as `BufRead::lines`
/// yields them, without the lines that are blank.
pub fn record_lines(contents: &str) -> (records: Vec<String>)
    ensures
        records@.map_values(|r: String| r@) == records_of(contents@),
{
    let ghost s = contents@;
    let ghost mut i: int = 0;
    let ghost mut start: int = 0;
    let ghost mut done: Seq<Seq<char>> = Seq::empty();
    let mut out: Vec<String> = Vec::new();
    let mut cur = String::new();
    let mut pending_cr = false;
    let mut blank = true;
    let mut it = contents.chars();
    proof {
        assert(s.skip(0) =~= s);
        assert(done + lines_of(s) =~= lines_of(s));
    }
    loop
        invariant
            s == contents@,
            vstd::std_specs::iter::IteratorSpec::remaining(&it) == s.skip(i),
            0 <= start <= i <= s.len(),
            forall|j: int| start <= j < i ==> s[j] != '\n',
            pending_cr ==> cur@.push('\r') == s.subrange(start, i),
            !pending_cr ==> cur@ == s.subrange(start, i),
            !pending_cr ==> (cur@.len() == 0 || cur@.last() != '\r'),
            blank == is_blank(s.subrange(start, i)),
            lines_of(s) == done + lines_of(s.skip(start)),
            out@.map_values(|r: String| r@) == done.filter(|l: Seq<char>| !is_blank(l)),
        decreases s.len() - i,
    {
        let ghost x = s.subrange(start, i);
        match it.next() {
            None => {
                proof {
                    assert(s.skip(i).len() == 0);
                    assert(i == s.len());
                    assert(x =~= s.skip(start));
                }
                if pending_cr {
                    push_char(&mut cur, '\r');
                }
                proof {
                    assert(cur@ =~= x);
                    if start < s.len() {
                        lemma_line_end_at(s.skip(start), s.len() - start);
                        assert(lines_of(s.skip(start)) == seq![x]);
                    } else {
                        assert(s.skip(start).len() == 0);
                        assert(lines_of(s.skip(start)) =~= Seq::<Seq<char>>::empty());
                    }
                }
                if !blank {
                    proof {
                        lemma_records_push(done, x);
                        done = done.push(x);
                    }
                    out.push(cur);
                    proof {
                        assert(lines_of(s) =~= done);
                    }
                } else {
                    proof {
                        if start < s.len() {
                            lemma_records_push(done, x);
                            done = done.push(x);
                        }
                        assert(lines_of(s) =~= done);
                    }
                }
                return out;
            },
            Some(c) => {
                proof {
                    assert(s.skip(i)[0] == c);
                    assert(s[i] == c);
                    assert(s.skip(i).drop_first() =~= s.skip(i + 1));
                }
                if c == '\n' {
                    proof {
                        let t = s.skip(start);
                        lemma_line_end_at(t, i - start);
                        assert(t.take(i - start) =~= x);
                        assert(t.skip(i - start + 1) =~= s.skip(i + 1));
                        assert(lines_of(t) == seq![without_cr(x)] + lines_of(s.skip(i + 1)));
                        assert(without_cr(x) =~= cur@);
                        lemma_blank_without_cr(x);
                        lemma_records_push(done, cur@);
                        done = done.push(cur@);
                        assert(lines_of(s) =~= done + lines_of(s.skip(i + 1)));
                    }
                    let line = cur;
                    cur = String::new();
                    if !blank {
                        out.push(line);
                    }
                    pending_cr = false;
                    blank = true;
                    proof {
                        start = i + 1;
                    }
                } else if c == '\r' {
                    if pending_cr {
                        push_char(&mut cur, '\r');
                    }
                    pending_cr = true;
                } else {
                    if pending_cr {
                        push_char(&mut cur, '\r');
                    }
                    pending_cr = false;
                    let w = is_whitespace(c);
                    push_char(&mut cur, c);
                    blank = blank && w;
                }
                proof {
                    if c != '\n' {
                        let y = s.subrange(start, i + 1);
                        assert(y =~= x.push(c));
                        assert(is_white_space('\r'));
                        if is_blank(y) {
                            assert(is_white_space(y[y.len() - 1]));
                        }
                        if is_blank(x) && is_white_space(c) {
                            assert forall|j: int| 0 <= j < y.len() implies is_white_space(
                                #[trigger] y[j],
                            ) by {
                                if j < x.len() {
                                    assert(y[j] == x[j]);
                                }
                            }
                        }
                        if is_blank(y) {
                            assert forall|j: int| 0 <= j < x.len() implies is_white_space(
                                #[trigger] x[j],
                            ) by {
                                assert(y[j] == x[j]);
                            }
                        }
                    }
                    i = i + 1;
                }
            },
        }
    }
}

/// What `line_end` finds: no `'\n'` before it, and a `'\n'` at it unless it is the end.
proof fn lemma_line_end_props(t: Seq<char>)
    ensures
        line_end(t) <= t.len(),
        forall|j: int| 0 <= j < line_end(t) ==> t[j] != '\n',
        line_end(t) < t.len() ==> t[line_end(t) as int] == '\n',
    decreases t.len(),
{
    if t.len() > 0 && t[0] != '\n' {
        let r = t.drop_first();
        lemma_line_end_props(r);
        assert forall|j: int| 0 <= j < line_end(t) implies t[j] != '\n' by {
            if j > 0 {
                assert(t[j] == r[j - 1]);
            }
        }
        if line_end(t) < t.len() {
            assert(t[line_end(t) as int] == r[line_end(r) as int]);
        }
    }
}

/// Text that follows a terminated last line adds its own lines after the earlier ones,
/// which it never changes.
proof fn lemma_lines_of_concat(a: Seq<char>, b: Seq<char>)
    requires
        is_framed(a),
    ensures
        lines_of(a + b) == lines_of(a) + lines_of(b),
    decreases a.len(),
{
    if a.len() == 0 {
        assert(a + b =~= b);
        assert(lines_of(a) + lines_of(b) =~= lines_of(b));
    } else {
        let ab = a + b;
        lemma_line_end_props(a);
        let k = line_end(a) as int;
        if k >= a.len() {
            assert(a[a.len() - 1] != '\n');
        }
        assert(k < a.len());
        assert forall|j: int| 0 <= j < k implies ab[j] != '\n' by {
            assert(ab[j] == a[j]);
        }
        assert(ab[k] == a[k]);
        lemma_line_end_at(ab, k);
        assert(ab.take(k) =~= a.take(k));
        let rest = a.skip(k + 1);
        assert(ab.skip(k + 1) =~= rest + b);
        if rest.len() > 0 {
            assert(rest.last() == a.last());
        }
        lemma_lines_of_concat(rest, b);
        assert(lines_of(ab) =~= lines_of(a) + lines_of(b));
    }
}

/// One terminated line that holds no other newline and does not end in `'\r'` reads
/// back as exactly that line.
proof fn lemma_lines_of_single(l: Seq<char>)
    requires
        l.len() > 0,
        !l.contains('\n'),
        l.last() != '\r',
    ensures
        lines_of(l.push('\n')) == seq![l],
{
    let t = l.push('\n');
    assert forall|j: int| 0 <= j < l.len() implies t[j] != '\n' by {
        assert(t[j] == l[j]);
        if t[j] == '\n' {
            assert(l.contains('\n'));
        }
    }
    lemma_line_end_at(t, l.len() as int);
    assert(t.take(l.len() as int) =~= l);
    assert(t.skip(l.len() + 1 as int) =~= Seq::<char>::empty());
    assert(lines_of(t.skip(l.len() + 1 as int)) =~= Seq::<Seq<char>>::empty());
    assert(without_cr(l) == l);
    assert(lines_of(t) =~= seq![l]);
}

/// No line read from a text holds a `'\n'`.
proof fn lemma_lines_hold_no_newline(s: Seq<char>)
    ensures
        forall|i: int| 0 <= i < lines_of(s).len() ==> !(#[trigger] lines_of(s)[i]).contains('\n'),
    decreases s.len(),
{
    if s.len() > 0 {
        lemma_line_end_props(s);
        let k = line_end(s) as int;
        if k < s.len() {
            let rest = s.skip(k + 1);
            lemma_lines_hold_no_newline(rest);
            let first = without_cr(s.take(k));
            assert(!first.contains('\n')) by {
                if first.contains('\n') {
                    let j = choose|j: int| 0 <= j < first.len() && first[j] == '\n';
                    assert(s[j] == '\n');
                }
            }
            assert forall|i: int| 0 <= i < lines_of(s).len() implies !(
            #[trigger] lines_of(s)[i]).contains('\n') by {
                if i > 0 {
                    assert(lines_of(s)[i] == lines_of(rest)[i - 1]);
                }
            }
        } else {
            assert(!s.contains('\n')) by {
                if s.contains('\n') {
                    let j = choose|j: int| 0 <= j < s.len() && s[j] == '\n';
                    assert(j < k);
                }
            }
        }
    }
}

/// Every record recalled from a store file is one whole line: it holds no `'\n'` and is
/// not blank.
pub proof fn lemma_records_are_single_lines(s: Seq<char>)
    ensures
        forall|i: int|
            0 <= i < records_of(s).len() ==> !(#[trigger] records_of(s)[i]).contains('\n')
                && !is_blank(records_of(s)[i]),
{
    let p = |l: Seq<char>| !is_blank(l);
    lemma_lines_hold_no_newline(s);
    assert forall|i: int| 0 <= i < records_of(s).len() implies !(
    #[trigger] records_of(s)[i]).contains('\n') && !is_blank(records_of(s)[i]) by {
        lines_of(s).lemma_filter_pred(p, i);
        let r = records_of(s)[i];
        lines_of(s).lemma_filter_contains_rev(p, r);
        assert(records_of(s).contains(r));
        let j = choose|j: int| 0 <= j < lines_of(s).len() && lines_of(s)[j] == r;
    }
}

/// Append-only: appending text after a well-framed store file leaves the records already
/// there untouched, in their order, and adds the records of the appended text after them.
pub proof fn lemma_appending_keeps_earlier_records(contents: Seq<char>, appended: Seq<char>)
    requires
        is_framed(contents),
    ensures
        records_of(contents + appended) == records_of(contents) + records_of(appended),
{
    lemma_lines_of_concat(contents, appended);
    Seq::filter_distributes_over_add(
        lines_of(contents),
        lines_of(appended),
        |l: Seq<char>| !is_blank(l),
    );
}

/// What recalling gives back of a remember: after the record line of a JSON text that
/// fits on one line is appended to a well-framed file, the file's records are the earlier
/// records followed by that text, and the file is still well framed.
pub proof fn lemma_recall_after_remember(contents: Seq<char>, json: Seq<char>)
    requires
        is_framed(contents),
        fits_one_line(json),
    ensures
        records_of(contents + json.push('\n')) == records_of(contents).push(json),
        is_framed(contents + json.push('\n')),
{
    assert(json.len() > 0);
    lemma_appending_keeps_earlier_records(contents, json.push('\n'));
    lemma_lines_of_single(json);
    reveal(Seq::filter);
    assert(seq![json].drop_last() =~= Seq::<Seq<char>>::empty());
    assert(records_of(json.push('\n')) =~= seq![json]);
    assert(records_of(contents) + seq![json] =~= records_of(contents).push(json));
}

/// A text with no `'\n'`, once terminated, reads back as one line, without a `'\r'`
/// that stood last.
proof fn lemma_lines_of_terminated(l: Seq<char>)
    requires
        !l.contains('\n'),
    ensures
        lines_of(l.push('\n')) == seq![without_cr(l)],
{
    let t = l.push('\n');
    assert forall|j: int| 0 <= j < l.len() implies t[j] != '\n' by {
        assert(t[j] == l[j]);
        if t[j] == '\n' {
            assert(l.contains('\n'));
        }
    }
    lemma_line_end_at(t, l.len() as int);
    assert(t.take(l.len() as int) =~= l);
    assert(t.skip(l.len() + 1 as int) =~= Seq::<char>::empty());
    assert(lines_of(t.skip(l.len() + 1 as int)) =~= Seq::<Seq<char>>::empty());
    assert(lines_of(t) =~= seq![without_cr(l)]);
}

/// A non-empty text with no `'\n'` and no terminator reads back as one line, as it is.
proof fn lemma_lines_of_unterminated(l: Seq<char>)
    requires
        l.len() > 0,
        !l.contains('\n'),
    ensures
        lines_of(l) == seq![l],
{
    assert forall|j: int| 0 <= j < l.len() implies l[j] != '\n' by {
        if l[j] == '\n' {
            assert(l.contains('\n'));
        }
    }
    lemma_line_end_at(l, l.len() as int);
}

/// A line ended by `"\r\n"` reads back without the `'\r'`: after a well-framed file, the
/// records are the earlier ones followed by the line.
pub proof fn lemma_crlf_line_is_recalled_without_cr(contents: Seq<char>, l: Seq<char>)
    requires
        is_framed(contents),
        fits_one_line(l),
    ensures
        records_of(contents + l.push('\r').push('\n')) == records_of(contents).push(l),
{
    let lr = l.push('\r');
    assert(!lr.contains('\n')) by {
        if lr.contains('\n') {
            let j = choose|j: int| 0 <= j < lr.len() && lr[j] == '\n';
            assert(l[j] == '\n');
        }
    }
    lemma_appending_keeps_earlier_records(contents, lr.push('\n'));
    lemma_lines_of_terminated(lr);
    assert(lr.drop_last() =~= l);
    reveal(Seq::filter);
    assert(seq![l].drop_last() =~= Seq::<Seq<char>>::empty());
    assert(records_of(lr.push('\n')) =~= seq![l]);
    assert(records_of(contents) + seq![l] =~= records_of(contents).push(l));
}

/// A blank line (whitespace only, terminated) is skipped: appending it after a
/// well-framed file leaves the records as they were.
pub proof fn lemma_blank_line_is_skipped(contents: Seq<char>, w: Seq<char>)
    requires
        is_framed(contents),
        is_blank(w),
        !w.contains('\n'),
    ensures
        records_of(contents + w.push('\n')) == records_of(contents),
{
    lemma_appending_keeps_earlier_records(contents, w.push('\n'));
    lemma_lines_of_terminated(w);
    lemma_blank_without_cr(w);
    reveal(Seq::filter);
    let line = without_cr(w);
    assert(is_blank(line));
    assert(seq![line].drop_last() =~= Seq::<Seq<char>>::empty());
    assert(seq![line].last() == line);
    assert(Seq::<Seq<char>>::empty().filter(|l: Seq<char>| !is_blank(l)) =~= Seq::<
        Seq<char>,
    >::empty());
    assert(records_of(w.push('\n')) =~= Seq::<Seq<char>>::empty());
    assert(records_of(contents) + Seq::<Seq<char>>::empty() =~= records_of(contents));
}

/// A last line without a terminator is still a record, kept exactly as it stands (a
/// `'\r'` at its end included), after the earlier records.
pub proof fn lemma_unterminated_last_line_is_recalled(contents: Seq<char>, l: Seq<char>)
    requires
        is_framed(contents),
        !l.contains('\n'),
        !is_blank(l),
    ensures
        records_of(contents + l) == records_of(contents).push(l),
{
    assert(l.len() > 0);
    lemma_appending_keeps_earlier_records(contents, l);
    lemma_lines_of_unterminated(l);
    reveal(Seq::filter);
    assert(seq![l].drop_last() =~= Seq::<Seq<char>>::empty());
    assert(records_of(l) =~= seq![l]);
    assert(records_of(contents) + seq![l] =~= records_of(contents).push(l));
}

} // verus!
