//! Procedural name generation for artifacts and the like.

use vstd::prelude::*;

verus! {

use vstd::string::StringExecFns;
use vstd::string::StrSliceExecFns;

pub const OGUR_MIN_SYLLABLES: i32 = 2;
pub const OGUR_MAX_SYLLABLES: i32 = 5;

/// The ASCII-uppercased form of `c`; anything but a lowercase letter is kept.
pub open spec fn upper_char(c: char) -> char {
    if c == 'a' {
        'A'    } else if c == 'b' {
        'B'
    } else if c == 'c' {
        'C'
    } else if c == 'd' {
        'D'
    } else if c == 'e' {
        'E'
    } else if c == 'f' {
        'F'
    } else if c == 'g' {
        'G'
    } else if c == 'h' {
        'H'
    } else if c == 'i' {
        'I'
    } else if c == 'j' {
        'J'
    } else if c == 'k' {
        'K'
    } else if c == 'l' {
        'L'
    } else if c == 'm' {
        'M'
    } else if c == 'n' {
        'N'
    } else if c == 'o' {
        'O'
    } else if c == 'p' {
        'P'
    } else if c == 'q' {
        'Q'
    } else if c == 'r' {
        'R'
    } else if c == 's' {
        'S'
    } else if c == 't' {
        'T'
    } else if c == 'u' {
        'U'
    } else if c == 'v' {
        'V'
    } else if c == 'w' {
        'W'
    } else if c == 'x' {
        'X'
    } else if c == 'y' {
        'Y'
    } else if c == 'z' {
        'Z'
    } else {
        c
    }
}

/// `s` with its first character uppercased.
pub open spec fn spec_capitalize(s: Seq<char>) -> Seq<char> {
    if s.len() == 0 {
        s
    } else {
        seq![upper_char(s[0])] + s.subrange(1, s.len() as int)
    }
}

/// Uppercases the first character of `s`.
pub fn capitalize(s: &str) -> (r: String)
    ensures
        r@ == spec_capitalize(s@),
{
    proof {
        reveal_strlit("A");
        reveal_strlit("B");
        reveal_strlit("C");
        reveal_strlit("D");
        reveal_strlit("E");
        reveal_strlit("F");
        reveal_strlit("G");
        reveal_strlit("H");
        reveal_strlit("I");
        reveal_strlit("J");
        reveal_strlit("K");
        reveal_strlit("L");
        reveal_strlit("M");
        reveal_strlit("N");
        reveal_strlit("O");
        reveal_strlit("P");
        reveal_strlit("Q");
        reveal_strlit("R");
        reveal_strlit("S");
        reveal_strlit("T");
        reveal_strlit("U");
        reveal_strlit("V");
        reveal_strlit("W");
        reveal_strlit("X");
        reveal_strlit("Y");
        reveal_strlit("Z");
    }
    let n = s.unicode_len();
    if n == 0 {
        return String::new();
    }
    let c = s.get_char(0);
    let mut head = match c {
        'a' => String::from_str("A"),
        'b' => String::from_str("B"),
        'c' => String::from_str("C"),
        'd' => String::from_str("D"),
        'e' => String::from_str("E"),
        'f' => String::from_str("F"),
        'g' => String::from_str("G"),
        'h' => String::from_str("H"),
        'i' => String::from_str("I"),
        'j' => String::from_str("J"),
        'k' => String::from_str("K"),
        'l' => String::from_str("L"),
        'm' => String::from_str("M"),
        'n' => String::from_str("N"),
        'o' => String::from_str("O"),
        'p' => String::from_str("P"),
        'q' => String::from_str("Q"),
        'r' => String::from_str("R"),
        's' => String::from_str("S"),
        't' => String::from_str("T"),
        'u' => String::from_str("U"),
        'v' => String::from_str("V"),
        'w' => String::from_str("W"),
        'x' => String::from_str("X"),
        'y' => String::from_str("Y"),
        'z' => String::from_str("Z"),
        _ => String::from_str(s.substring_char(0, 1)),
    };
    head.append(s.substring_char(1, n));
    proof {
        assert(head@ =~= spec_capitalize(s@));
    }
    head
}

/// The concatenation of a run of syllables, in order.
pub open spec fn concat_all(parts: Seq<Seq<char>>) -> Seq<char>
    decreases parts.len(),
{
    if parts.len() == 0 {
        Seq::empty()
    } else {
        concat_all(parts.drop_last()) + parts.last()
    }
}

/// The name is a capitalized concatenation of at least `min` and fewer than
/// `max` syllables, each drawn from `pool`.
pub open spec fn built_from_syllables(
    name: Seq<char>,
    pool: Seq<Seq<char>>,
    min: int,
    max: int,
) -> bool {
    exists|parts: Seq<Seq<char>>|
        {
            &&& min <= #[trigger] parts.len() < max
            &&& (forall|i: int| 0 <= i < parts.len() ==> pool.contains(#[trigger] parts[i]))
            &&& name == spec_capitalize(concat_all(parts))
        }
}

/// The artifact syllable pool, as character sequences.
pub open spec fn artifact_pool() -> Seq<Seq<char>> {
    seq![
        "gi"@,
        "reh"@,
        "han"@,
        "do"@,
        "mee"@,
        "sak"@,
        "ein"@,
        "pol"@,
        "maat"@,
        "hen"@,
        "kid"@,
    ]
}

/// The ogur syllable pool, as character sequences.
pub open spec fn ogur_pool() -> Seq<Seq<char>> {
    seq![
        "bo"@,
        "kud"@,
        "da"@,
        "ke"@,
        "ku"@,
        "sak"@,
        "sad"@,
        "se"@,
        "be"@,
        "je"@,
        "ju"@,
        "juk"@,
        "jad"@,
        "jak"@,
    ]
}

/// The syllable pool for artifact names.
pub fn artifact_syllables() -> (r: Vec<&'static str>)
    ensures
        r@.len() == 11,
        forall|i: int| 0 <= i < r@.len() ==> #[trigger] r@[i]@ == artifact_pool()[i],
        forall|i: int| 0 <= i < r@.len() ==> #[trigger] r@[i]@.len() >= 1,
{
    let mut v: Vec<&'static str> = Vec::new();
    v.push("gi");
    v.push("reh");
    v.push("han");
    v.push("do");
    v.push("mee");
    v.push("sak");
    v.push("ein");
    v.push("pol");
    v.push("maat");
    v.push("hen");
    v.push("kid");
    proof {
        reveal_strlit("gi");
        reveal_strlit("reh");
        reveal_strlit("han");
        reveal_strlit("do");
        reveal_strlit("mee");
        reveal_strlit("sak");
        reveal_strlit("ein");
        reveal_strlit("pol");
        reveal_strlit("maat");
        reveal_strlit("hen");
        reveal_strlit("kid");
    }
    v
}

/// The syllable pool for ogur names.
pub fn ogur_syllables() -> (r: Vec<&'static str>)
    ensures
        r@.len() == 14,
        forall|i: int| 0 <= i < r@.len() ==> #[trigger] r@[i]@ == ogur_pool()[i],
        forall|i: int| 0 <= i < r@.len() ==> #[trigger] r@[i]@.len() >= 1,
{
    let mut v: Vec<&'static str> = Vec::new();
    v.push("bo");
    v.push("kud");
    v.push("da");
    v.push("ke");
    v.push("ku");
    v.push("sak");
    v.push("sad");
    v.push("se");
    v.push("be");
    v.push("je");
    v.push("ju");
    v.push("juk");
    v.push("jad");
    v.push("jak");
    proof {
        reveal_strlit("bo");
        reveal_strlit("kud");
        reveal_strlit("da");
        reveal_strlit("ke");
        reveal_strlit("ku");
        reveal_strlit("sak");
        reveal_strlit("sad");
        reveal_strlit("se");
        reveal_strlit("be");
        reveal_strlit("je");
        reveal_strlit("ju");
        reveal_strlit("juk");
        reveal_strlit("jad");
        reveal_strlit("jak");
    }
    v
}

/// Builds a name of `min_syllables` up to one less than `max_syllables`
/// syllables, each drawn from the first eleven entries of the pool, and
/// capitalizes it.
pub fn generate_name(syllables: &[&str], min_syllables: i32, max_syllables: i32) -> (r: String)
    requires
        0 < min_syllables < max_syllables,
        syllables@.len() >= 11,
        forall|i: int| 0 <= i < syllables@.len() ==> #[trigger] syllables@[i]@.len() >= 1,
    ensures
        r@.len() >= min_syllables,
        built_from_syllables(
            r@,
            syllables@.map_values(|t: &str| t@).take(11),
            min_syllables as int,
            max_syllables as int,
        ),
{
    let ghost pool = syllables@.map_values(|t: &str| t@).take(11);
    let num_syllables = crate::rng::range_i32(min_syllables, max_syllables);
    let mut name = String::new();
    let ghost mut parts = Seq::<Seq<char>>::empty();
    let mut k: i32 = 0;
    while k < num_syllables
        invariant
            0 <= k <= num_syllables,
            num_syllables < max_syllables,
            min_syllables <= num_syllables,
            syllables@.len() >= 11,
            forall|i: int| 0 <= i < syllables@.len() ==> #[trigger] syllables@[i]@.len() >= 1,
            name@.len() >= k,
            pool == syllables@.map_values(|t: &str| t@).take(11),
            parts.len() == k,
            forall|i: int| 0 <= i < parts.len() ==> pool.contains(#[trigger] parts[i]),
            name@ == concat_all(parts),
        decreases num_syllables - k,
    {
        let idx = crate::rng::range_u32(0, 11) as usize;
        let selection = syllables[idx];
        name.append(selection);
        proof {
            assert(pool[idx as int] == selection@);
            assert(pool.contains(selection@));
            let grown = parts.push(selection@);
            assert(grown.drop_last() =~= parts);
            assert(grown.last() == selection@);
            parts = grown;
        }
        k = k + 1;
    }
    let capitalized = capitalize(name.as_str());
    proof {
        assert(capitalized@.len() == name@.len());
        assert(min_syllables <= parts.len() < max_syllables);
        assert(capitalized@ == spec_capitalize(concat_all(parts)));
    }
    capitalized
}

/// A random artifact name: two to six syllables from the artifact pool,
/// capitalized.
pub fn generate_artefact_name() -> (r: String)
    ensures
        r@.len() >= 2,
        built_from_syllables(r@, artifact_pool(), 2, 7),
{
    let pool = artifact_syllables();
    let name = generate_name(pool.as_slice(), 2, 7);
    proof {
        assert(pool@.map_values(|t: &str| t@).take(11) =~= artifact_pool());
    }
    name
}

/// A random ogur name: two to four syllables, drawn (as the index quirk in
/// `generate_name` has it) from the first eleven entries of the ogur pool,
/// capitalized.
pub fn generate_ogur_name() -> (r: String)
    ensures
        r@.len() >= 2,
        built_from_syllables(r@, ogur_pool().take(11), OGUR_MIN_SYLLABLES as int, OGUR_MAX_SYLLABLES as int),
{
    let pool = ogur_syllables();
    let name = generate_name(pool.as_slice(), OGUR_MIN_SYLLABLES, OGUR_MAX_SYLLABLES);
    proof {
        assert(pool@.map_values(|t: &str| t@).take(11) =~= ogur_pool().take(11));
    }
    name
}

} // verus!
