use vstd::prelude::*;

use rand::rngs::ThreadRng;
use rand::Rng;

use crate::letter_draws::LetterDraws;
use crate::string::string_push;

verus! {

/// The thread-local random generator of `rand`.
#[verifier::external_type_specification]
#[verifier::external_body]
pub struct ExThreadRng(ThreadRng);

/// Trusted: `rand::thread_rng` hands out the calling thread's generator.
/// Nothing is stated of its state.
#[verifier::external_body]
pub(crate) fn thread_rng() -> ThreadRng {
    rand::thread_rng()
}

/// Trusted: `Rng::gen_range(0..bound)` draws a value below `bound` (it
/// panics on an empty range, so `bound` is positive). Which value comes out
/// is left open.
#[verifier::external_body]
pub(crate) fn gen_index(rng: &mut ThreadRng, bound: usize) -> (r: usize)
    requires
        bound > 0,
    ensures
        r < bound,
{
    rng.gen_range(0..bound)
}

/// The number of letters file names are drawn from.
pub const ALPHABET_LEN: usize = 26usize;

/// The length a random file name gets when none is asked for.
pub const DEFAULT_NAME_LEN: u8 = 15u8;

/// Letter `i` of the lower-case alphabet.
pub open spec fn alphabet_letter(i: usize) -> char {
    ((97 + i) as u8) as char
}

/// The name spelled by letter indices.
pub open spec fn name_from_indices(indices: Seq<usize>) -> Seq<char> {
    indices.map_values(|i: usize| alphabet_letter(i))
}

/// The length of the name asked for: `len`, or 15 without one.
pub open spec fn requested_name_len(len: Option<u8>) -> nat {
    match len {
        Some(n) => n as nat,
        None => DEFAULT_NAME_LEN as nat,
    }
}

/// Every index picks a letter.
pub open spec fn valid_letter_indices(indices: Seq<usize>) -> bool {
    forall|j: int| 0 <= j < indices.len() ==> #[trigger] indices[j] < ALPHABET_LEN
}

fn letter(i: usize) -> (c: char)
    requires
        i < ALPHABET_LEN,
    ensures
        c == alphabet_letter(i),
{
    (97u8 + i as u8) as char
}

/// The file name spelled by `indices`, letter `i` of the alphabet for each.
pub fn file_name_from_indices(indices: &[usize]) -> (r: String)
    requires
        valid_letter_indices(indices@),
    ensures
        r@ == name_from_indices(indices@),
{
    let mut name = String::new();
    let n = indices.len();
    let mut j: usize = 0;
    while j < n
        invariant
            n == indices@.len(),
            j <= n,
            valid_letter_indices(indices@),
            name@ == name_from_indices(indices@.take(j as int)),
        decreases n - j,
    {
        let c = letter(indices[j]);
        assert(name_from_indices(indices@.take(j + 1)) =~= name_from_indices(indices@.take(j as int)).push(c));
        string_push(&mut name, c);
        j = j + 1;
    }
    assert(indices@.take(n as int) =~= indices@);
    name
}

/// Spelling records one letter per index: the name has as many letters as
/// there are indices, letter `j` is the letter of index `j`, and different
/// index sequences spell different names.
pub proof fn law_name_spells_each_index(a: Seq<usize>, b: Seq<usize>)
    requires
        valid_letter_indices(a),
        valid_letter_indices(b),
    ensures
        name_from_indices(a).len() == a.len(),
        forall|j: int| 0 <= j < a.len() ==> #[trigger] name_from_indices(a)[j] == alphabet_letter(a[j]),
        forall|j: int|
            0 <= j < a.len() ==> 'a' as u32 <= (#[trigger] name_from_indices(a)[j]) as u32 <= 'z' as u32,
        name_from_indices(a) == name_from_indices(b) ==> a == b,
{
    assert forall|j: int| 0 <= j < a.len() implies 'a' as u32 <= (#[trigger] name_from_indices(a)[j]) as u32
        <= 'z' as u32 by {
        assert(a[j] < ALPHABET_LEN);
    }
    if name_from_indices(a) == name_from_indices(b) {
        assert(a.len() == name_from_indices(a).len());
        assert(b.len() == name_from_indices(b).len());
        assert forall|j: int| 0 <= j < a.len() implies a[j] == b[j] by {
            assert(name_from_indices(a)[j] == name_from_indices(b)[j]);
            assert(a[j] < ALPHABET_LEN);
            assert(b[j] < ALPHABET_LEN);
            let x = (97 + a[j]) as u8;
            let y = (97 + b[j]) as u8;
            assert((x as char) as u32 == x as u32);
            assert((y as char) as u32 == y as u32);
        }
        assert(a =~= b);
    }
}

/// A file name of `len` letters (15 without `len`), one fresh draw of `draws`
/// per letter: the name spells exactly the draws it made, in order.
pub fn name_from_draws(draws: &mut LetterDraws, len: Option<u8>) -> (r: String)
    ensures
        final(draws).drawn().len() == old(draws).drawn().len() + requested_name_len(len),
        final(draws).drawn().take(old(draws).drawn().len() as int) == old(draws).drawn(),
        valid_letter_indices(final(draws).drawn().skip(old(draws).drawn().len() as int)),
        r@ == name_from_indices(final(draws).drawn().skip(old(draws).drawn().len() as int)),
{
    let ghost before = draws.drawn();
    let name_len: u8 = match len {
        Some(n) => n,
        None => DEFAULT_NAME_LEN,
    };
    let mut indices: Vec<usize> = Vec::new();
    let mut k: u8 = 0;
    while k < name_len
        invariant
            k <= name_len,
            indices@.len() == k,
            valid_letter_indices(indices@),
            draws.drawn() == before + indices@,
        decreases name_len - k,
    {
        let random_index = draws.draw();
        proof {
            assert(before + indices@.push(random_index) =~= (before + indices@).push(random_index));
        }
        indices.push(random_index);
        k = k + 1;
    }
    assert(draws.drawn().take(before.len() as int) =~= before);
    assert(draws.drawn().skip(before.len() as int) =~= indices@);
    file_name_from_indices(indices.as_slice())
}

/// A random file name of `len` lower-case letters (15 without `len`), each
/// letter drawn on its own.
pub fn random_file_name(len: Option<u8>) -> (r: String)
    ensures
        exists|indices: Seq<usize>|
            indices.len() == requested_name_len(len) && valid_letter_indices(indices) && r@
                == name_from_indices(indices),
{
    let mut draws = LetterDraws::new();
    let name = name_from_draws(&mut draws, len);
    proof {
        let ghost d = draws.drawn();
        assert(d.skip(0) =~= d);
    }
    name
}

} // verus!
