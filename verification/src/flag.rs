//! The BIFP flag tuple: the unit both parties emit to each other.

use crate::trit::{trit_of_sign, trit_value, Trit};
use vstd::prelude::*;

verus! {

broadcast use vstd::string::group_string_axioms;

/// Which party emitted a flag.
#[derive(Debug, Clone, Copy, PartialEq, Eq, Structural)]
pub enum Source {
    Human,
    Agent,
}

/// The code of a character with ASCII upper-case letters mapped to lower case.
pub open spec fn ascii_lower_code(c: char) -> u32 {
    let v = c as u32;
    if 0x41 <= v <= 0x5A {
        (v + 0x20) as u32
    } else {
        v
    }
}

/// The code of the `i`-th letter of "human".
pub open spec fn human_letter(i: int) -> u32 {
    if i == 0 {
        'h' as u32
    } else if i == 1 {
        'u' as u32
    } else if i == 2 {
        'm' as u32
    } else if i == 3 {
        'a' as u32
    } else {
        'n' as u32
    }
}

/// Whether `name` is "human" ignoring ASCII case (as `str::eq_ignore_ascii_case` compares).
pub open spec fn names_human(name: Seq<char>) -> bool {
    &&& name.len() == 5
    &&& forall|i: int| 0 <= i < 5 ==> ascii_lower_code(#[trigger] name[i]) == human_letter(i)
}

/// `name` spells "human" with each letter in lower or upper case.
pub open spec fn is_human_in_any_case(name: Seq<char>) -> bool {
    &&& name.len() == 5
    &&& (name[0] == 'h' || name[0] == 'H')
    &&& (name[1] == 'u' || name[1] == 'U')
    &&& (name[2] == 'm' || name[2] == 'M')
    &&& (name[3] == 'a' || name[3] == 'A')
    &&& (name[4] == 'n' || name[4] == 'N')
}

/// Lowering a character hits a lower-case letter exactly from that letter or its upper
/// case.
proof fn lemma_lower_hits_letter(c: char, lower: char, upper: char)
    requires
        0x61 <= lower as u32 <= 0x7A,
        upper as u32 == lower as u32 - 0x20,
    ensures
        (ascii_lower_code(c) == lower as u32) <==> (c == lower || c == upper),
{
    if ascii_lower_code(c) == lower as u32 {
        if 0x41 <= c as u32 <= 0x5A {
            assert(c as u32 == upper as u32);
        } else {
            assert(c as u32 == lower as u32);
        }
    }
}

/// Being "human" ignoring ASCII case is spelling "human" with each letter in lower or
/// upper case, for every name.
pub proof fn lemma_names_human_any_case(name: Seq<char>)
    ensures
        names_human(name) <==> is_human_in_any_case(name),
{
    if name.len() == 5 {
        lemma_lower_hits_letter(name[0], 'h', 'H');
        lemma_lower_hits_letter(name[1], 'u', 'U');
        lemma_lower_hits_letter(name[2], 'm', 'M');
        lemma_lower_hits_letter(name[3], 'a', 'A');
        lemma_lower_hits_letter(name[4], 'n', 'N');
        if is_human_in_any_case(name) {
            assert forall|i: int| 0 <= i < 5 implies ascii_lower_code(#[trigger] name[i])
                == human_letter(i) by {
                if i == 0 {
                } else if i == 1 {
                } else if i == 2 {
                } else if i == 3 {
                } else {
                }
            }
        }
        if names_human(name) {
            assert(ascii_lower_code(name[0]) == human_letter(0));
            assert(ascii_lower_code(name[1]) == human_letter(1));
            assert(ascii_lower_code(name[2]) == human_letter(2));
            assert(ascii_lower_code(name[3]) == human_letter(3));
            assert(ascii_lower_code(name[4]) == human_letter(4));
        }
    }
}

fn human_letter_code(i: usize) -> (v: u32)
    requires
        i < 5,
    ensures
        v == human_letter(i as int),
{
    if i == 0 {
        'h' as u32
    } else if i == 1 {
        'u' as u32
    } else if i == 2 {
        'm' as u32
    } else if i == 3 {
        'a' as u32
    } else {
        'n' as u32
    }
}

fn lower_code(c: char) -> (v: u32)
    ensures
        v == ascii_lower_code(c),
{
    let v = c as u32;
    if 0x41 <= v && v <= 0x5A {
        v + 0x20
    } else {
        v
    }
}

impl Source {
    /// The party a source name denotes: "human" in any ASCII letter case is the human,
    /// every other name is the agent.
    pub fn from_name(name: &str) -> (s: Source)
        ensures
            s == (if names_human(name@) { Source::Human } else { Source::Agent }),
            (s == Source::Human) <==> is_human_in_any_case(name@),
    {
        proof {
            lemma_names_human_any_case(name@);
        }
        let mut it = name.chars();
        let mut k: usize = 0;
        loop
            invariant
                k <= 5,
                k <= name@.len(),
                names_human(name@) <==> is_human_in_any_case(name@),
                vstd::std_specs::iter::IteratorSpec::remaining(&it) == name@.skip(k as int),
                forall|j: int| 0 <= j < k ==> ascii_lower_code(#[trigger] name@[j]) == human_letter(j),
            decreases name@.len() - k,
        {
            match it.next() {
                None => {
                    assert(name@.skip(k as int).len() == 0);
                    if k == 5 {
                        return Source::Human;
                    } else {
                        return Source::Agent;
                    }
                },
                Some(c) => {
                    assert(name@.skip(k as int)[0] == c);
                    assert(name@[k as int] == c);
                    if k == 5 {
                        return Source::Agent;
                    }
                    if lower_code(c) != human_letter_code(k) {
                        return Source::Agent;
                    }
                    assert(name@.skip(k as int).drop_first() =~= name@.skip(k + 1));
                    k = k + 1;
                },
            }
        }
    }
}

/// A flag `{trit, confidence, note, ts, source, revises}`.
///
/// The confidence is a floating-point score on [0, 1]; it is held here as the IEEE-754
/// bit pattern of that `f64` (`f64::to_bits`), which this crate carries but never
/// computes with.
#[derive(Debug)]
pub struct Flag {
    pub trit: i8,
    pub confidence_bits: u64,
    pub note: String,
    pub ts: String,
    pub source: Source,
    /// Set only when this flag revises an earlier one because the other party's feedback
    /// changed it: the palette's cycle event, not a status. `None` for a fresh flag.
    pub revises: Option<u64>,
}

impl Clone for Flag {
    /// A field-for-field copy.
    fn clone(&self) -> (f: Self)
        ensures
            f == *self,
    {
        Flag {
            trit: self.trit,
            confidence_bits: self.confidence_bits,
            note: self.note.clone(),
            ts: self.ts.clone(),
            source: self.source,
            revises: self.revises,
        }
    }
}

/// The trit a flag carries, read from its signed field by sign.
pub open spec fn flag_trit(f: Flag) -> Trit {
    trit_of_sign(f.trit as int)
}

impl Flag {
    /// A fresh flag: the trit in its signed form, the given (already clamped) confidence,
    /// note, source and timestamp, revising nothing.
    pub fn new(trit: Trit, confidence_bits: u64, note: String, source: Source, ts: String) -> (f: Self)
        ensures
            f.trit == trit_value(trit),
            f.confidence_bits == confidence_bits,
            f.note == note,
            f.ts == ts,
            f.source == source,
            f.revises is None,
            flag_trit(f) == trit,
    {
        Flag { trit: trit.as_i8(), confidence_bits, note, ts, source, revises: None }
    }

    /// The flag's trit.
    pub fn trit(&self) -> (t: Trit)
        ensures
            t == flag_trit(*self),
            self.trit < 0 ==> t == Trit::Reject,
            self.trit == 0 ==> t == Trit::Tend,
            self.trit > 0 ==> t == Trit::Affirm,
    {
        Trit::from_i8(self.trit)
    }

    /// The same flag, now marked as revising the earlier flag `earlier_id`; every other
    /// field is unchanged.
    pub fn revising(self, earlier_id: u64) -> (f: Self)
        ensures
            f.revises == Some(earlier_id),
            f.trit == self.trit,
            f.confidence_bits == self.confidence_bits,
            f.note == self.note,
            f.ts == self.ts,
            f.source == self.source,
    {
        let mut f = self;
        f.revises = Some(earlier_id);
        f
    }
}

} // verus!
