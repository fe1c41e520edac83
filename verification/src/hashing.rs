//! A small verified content hash. The envelope's version is derived
//! from it, so that the version is a function of the wrapped value's
//! content alone and changes whenever the content changes.
//!
//! The scheme is a plain polynomial rolling hash over a value's
//! components, each list mixed in behind its length so that component
//! boundaries cannot collide trivially.

use vstd::prelude::*;
use vstd::string::StrSliceExecFns;

verus! {

/// One mixing step: fold a word into the accumulator, wrapping.
pub open spec fn spec_mix(h: u64, v: u64) -> u64 {
    (((h * 31) + v) % 0x1_0000_0000_0000_0000) as u64
}

/// One mixing step, executable.
pub fn mix(h: u64, v: u64) -> (r: u64)
    ensures
        r == spec_mix(h, v),
{
    let wide: u128 = (h as u128) * 31 + (v as u128);
    let narrowed: u128 = wide % 0x1_0000_0000_0000_0000;
    proof {
        assert(wide == (h as int) * 31 + v);
        assert(narrowed < 0x1_0000_0000_0000_0000);
    }
    narrowed as u64
}

/// Fold every character of a string into the accumulator.
pub open spec fn spec_hash_chars(h: u64, s: Seq<char>) -> u64
    decreases s.len(),
{
    if s.len() == 0 {
        h
    } else {
        spec_hash_chars(spec_mix(h, s[0] as u64), s.drop_first())
    }
}

proof fn lemma_skip_step<T>(s: Seq<T>, i: int)
    requires
        0 <= i < s.len(),
    ensures
        s.skip(i).drop_first() =~= s.skip(i + 1),
        s.skip(i)[0] == s[i],
{
}

fn hash_chars(h0: u64, s: &str) -> (r: u64)
    ensures
        r == spec_hash_chars(h0, s@),
{
    let n = s.unicode_len();
    let mut h = h0;
    let mut i: usize = 0;
    proof {
        assert(s@.skip(0) =~= s@);
    }
    while i < n
        invariant
            n == s@.len(),
            i <= n,
            spec_hash_chars(h0, s@) == spec_hash_chars(h, s@.skip(i as int)),
        decreases n - i,
    {
        let c = s.get_char(i);
        proof {
            lemma_skip_step(s@, i as int);
        }
        h = mix(h, c as u64);
        i += 1;
    }
    proof {
        assert(s@.skip(n as int) =~= Seq::<char>::empty());
    }
    h
}

/// Fold a string in: first its length, then its characters.
pub open spec fn spec_hash_string(h: u64, s: Seq<char>) -> u64 {
    spec_hash_chars(spec_mix(h, s.len() as u64), s)
}

pub fn hash_string(h: u64, s: &String) -> (r: u64)
    ensures
        r == spec_hash_string(h, s@),
{
    let st = s.as_str();
    let n = st.unicode_len();
    let h1 = mix(h, n as u64);
    hash_chars(h1, st)
}

/// Fold an optional string in: a tag for absence or presence, then the
/// string itself when present.
pub open spec fn spec_hash_opt_string(h: u64, s: Option<Seq<char>>) -> u64 {
    match s {
        None => spec_mix(h, 0),
        Some(v) => spec_hash_string(spec_mix(h, 1), v),
    }
}

pub fn hash_opt_string(h: u64, s: &Option<String>) -> (r: u64)
    ensures
        r == spec_hash_opt_string(h, s.deep_view()),
{
    match s {
        None => mix(h, 0),
        Some(v) => {
            let h1 = mix(h, 1);
            hash_string(h1, v)
        },
    }
}

/// Fold a list of strings in: its length, then each string.
pub open spec fn spec_hash_strings(h: u64, ss: Seq<Seq<char>>) -> u64
    decreases ss.len(),
{
    if ss.len() == 0 {
        h
    } else {
        spec_hash_strings(spec_hash_string(h, ss[0]), ss.drop_first())
    }
}

pub fn hash_strings(h0: u64, ss: &Vec<String>) -> (r: u64)
    ensures
        r == spec_hash_strings(spec_mix(h0, ss.deep_view().len() as u64), ss.deep_view()),
{
    let mut h = mix(h0, ss.len() as u64);
    let ghost h1 = h;
    let mut i: usize = 0;
    proof {
        assert(ss.deep_view().skip(0) =~= ss.deep_view());
    }
    while i < ss.len()
        invariant
            i <= ss@.len(),
            ss.deep_view().len() == ss@.len(),
            spec_hash_strings(h1, ss.deep_view()) == spec_hash_strings(
                h,
                ss.deep_view().skip(i as int),
            ),
        decreases ss@.len() - i,
    {
        proof {
            lemma_skip_step(ss.deep_view(), i as int);
            assert(ss.deep_view()[i as int] == ss@[i as int]@);
        }
        h = hash_string(h, &ss[i]);
        i += 1;
    }
    proof {
        assert(ss.deep_view().skip(ss@.len() as int) =~= Seq::<Seq<char>>::empty());
    }
    h
}

/// Fold a list of small numbers in: its length, then each value.
pub open spec fn spec_hash_bytes_rec(h: u64, s: Seq<u8>) -> u64
    decreases s.len(),
{
    if s.len() == 0 {
        h
    } else {
        spec_hash_bytes_rec(spec_mix(h, s[0] as u64), s.drop_first())
    }
}

pub open spec fn spec_hash_bytes(h: u64, s: Seq<u8>) -> u64 {
    spec_hash_bytes_rec(spec_mix(h, s.len() as u64), s)
}

pub fn hash_bytes(h0: u64, s: &Vec<u8>) -> (r: u64)
    ensures
        r == spec_hash_bytes(h0, s@),
{
    let mut h = mix(h0, s.len() as u64);
    let ghost h1 = h;
    let mut i: usize = 0;
    proof {
        assert(s@.skip(0) =~= s@);
    }
    while i < s.len()
        invariant
            i <= s@.len(),
            spec_hash_bytes_rec(h1, s@) == spec_hash_bytes_rec(h, s@.skip(i as int)),
        decreases s@.len() - i,
    {
        proof {
            lemma_skip_step(s@, i as int);
        }
        h = mix(h, s[i] as u64);
        i += 1;
    }
    proof {
        assert(s@.skip(s@.len() as int) =~= Seq::<u8>::empty());
    }
    h
}

/// Fold a list of year numbers in: its length, then each value.
pub open spec fn spec_hash_words_rec(h: u64, s: Seq<u16>) -> u64
    decreases s.len(),
{
    if s.len() == 0 {
        h
    } else {
        spec_hash_words_rec(spec_mix(h, s[0] as u64), s.drop_first())
    }
}

pub open spec fn spec_hash_words(h: u64, s: Seq<u16>) -> u64 {
    spec_hash_words_rec(spec_mix(h, s.len() as u64), s)
}

pub fn hash_words(h0: u64, s: &Vec<u16>) -> (r: u64)
    ensures
        r == spec_hash_words(h0, s@),
{
    let mut h = mix(h0, s.len() as u64);
    let ghost h1 = h;
    let mut i: usize = 0;
    proof {
        assert(s@.skip(0) =~= s@);
    }
    while i < s.len()
        invariant
            i <= s@.len(),
            spec_hash_words_rec(h1, s@) == spec_hash_words_rec(h, s@.skip(i as int)),
        decreases s@.len() - i,
    {
        proof {
            lemma_skip_step(s@, i as int);
        }
        h = mix(h, s[i] as u64);
        i += 1;
    }
    proof {
        assert(s@.skip(s@.len() as int) =~= Seq::<u16>::empty());
    }
    h
}

} // verus!
