//! Recognising OpenPGP messages in ASCII armor.
use vstd::prelude::*;

verus! {

/// The line that an armored OpenPGP message begins with.
pub open spec fn armor_header() -> Seq<u8> {
    "-----BEGIN PGP MESSAGE-----"@.map_values(|c: char| c as u8)
}

/// `input` without its leading spaces and control characters.
pub open spec fn trim_start(input: Seq<u8>) -> Seq<u8>
    decreases input.len(),
{
    if input.len() > 0 && input[0] <= 0x20 {
        trim_start(input.skip(1))
    } else {
        input
    }
}

/// Whether `input`, apart from leading spaces and control characters, begins with an
/// armored OpenPGP message.
pub open spec fn is_armored(input: Seq<u8>) -> bool {
    armor_header().is_prefix_of(trim_start(input))
}

/// Spaces and control characters before a text do not change whether it is armored.
pub proof fn law_leading_blanks_do_not_matter(blanks: Seq<u8>, input: Seq<u8>)
    requires
        forall|i: int| 0 <= i < blanks.len() ==> #[trigger] blanks[i] <= 0x20,
    ensures
        is_armored(blanks + input) == is_armored(input),
    decreases blanks.len(),
{
    if blanks.len() == 0 {
        assert(blanks + input =~= input);
    } else {
        let rest = blanks.skip(1);
        assert forall|i: int| 0 <= i < rest.len() implies #[trigger] rest[i] <= 0x20 by {
            assert(rest[i] == blanks[i + 1]);
        }
        law_leading_blanks_do_not_matter(rest, input);
        assert((blanks + input)[0] == blanks[0]);
        assert((blanks + input).skip(1) =~= rest + input);
    }
}

/// Bytes behind an armored message leave it armored.
pub proof fn law_trailing_bytes_do_not_matter(input: Seq<u8>, tail: Seq<u8>)
    requires
        is_armored(input),
    ensures
        is_armored(input + tail),
    decreases input.len(),
{
    let header = armor_header();
    reveal_strlit("-----BEGIN PGP MESSAGE-----");
    if input.len() > 0 && input[0] <= 0x20 {
        law_trailing_bytes_do_not_matter(input.skip(1), tail);
        assert((input + tail).skip(1) =~= input.skip(1) + tail);
    } else {
        assert(header.len() == 27);
        assert((input + tail)[0] == input[0]);
        assert((input + tail).take(27) =~= input.take(27));
        assert(header =~= (input + tail).take(27));
    }
}

/// A text is armored if and only if, behind some blanks, the first line of an armored
/// message stands in it.
pub proof fn law_armor_stands_behind_blanks(input: Seq<u8>)
    ensures
        is_armored(input) <==> exists|n: int|
            0 <= n <= input.len() - 27 && (forall|i: int|
                0 <= i < n ==> #[trigger] input[i] <= 0x20) && (#[trigger] input.skip(n)).take(27)
                == "-----BEGIN PGP MESSAGE-----"@.map_values(|c: char| c as u8),
    decreases input.len(),
{
    reveal_strlit("-----BEGIN PGP MESSAGE-----");
    let header = armor_header();
    assert(header[0] == 0x2d);
    assert(header.len() == 27);
    if input.len() > 0 && input[0] <= 0x20 {
        let rest = input.skip(1);
        law_armor_stands_behind_blanks(rest);
        if is_armored(input) {
            let n = choose|n: int|
                0 <= n <= rest.len() - 27 && (forall|i: int|
                    0 <= i < n ==> #[trigger] rest[i] <= 0x20) && (#[trigger] rest.skip(n)).take(27)
                    == header;
            assert(input.skip(n + 1) =~= rest.skip(n));
            assert forall|i: int| 0 <= i < n + 1 implies #[trigger] input[i] <= 0x20 by {
                if i > 0 {
                    assert(input[i] == rest[i - 1]);
                }
            }
        }
        if exists|n: int|
            0 <= n <= input.len() - 27 && (forall|i: int|
                0 <= i < n ==> #[trigger] input[i] <= 0x20) && (#[trigger] input.skip(n)).take(27)
                == header {
            let n = choose|n: int|
                0 <= n <= input.len() - 27 && (forall|i: int|
                    0 <= i < n ==> #[trigger] input[i] <= 0x20) && (#[trigger] input.skip(n)).take(
                    27,
                ) == header;
            assert(input.skip(n).take(27)[0] == input[n]);
            assert(rest.skip(n - 1) =~= input.skip(n));
            assert forall|i: int| 0 <= i < n - 1 implies #[trigger] rest[i] <= 0x20 by {
                assert(rest[i] == input[i + 1]);
            }
        }
    } else {
        assert(trim_start(input) == input);
        assert(input.skip(0) =~= input);
        if is_armored(input) {
            assert(input.skip(0).take(27) =~= header);
        }
        if exists|n: int|
            0 <= n <= input.len() - 27 && (forall|i: int|
                0 <= i < n ==> #[trigger] input[i] <= 0x20) && (#[trigger] input.skip(n)).take(27)
                == header {
            let n = choose|n: int|
                0 <= n <= input.len() - 27 && (forall|i: int|
                    0 <= i < n ==> #[trigger] input[i] <= 0x20) && (#[trigger] input.skip(n)).take(
                    27,
                ) == header;
            assert(n == 0);
            assert(input.take(27) =~= header);
        }
    }
}

proof fn lemma_trim_start(input: Seq<u8>, n: int)
    requires
        0 <= n <= input.len(),
        forall|i: int| 0 <= i < n ==> #[trigger] input[i] <= 0x20,
        n < input.len() ==> input[n] > 0x20,
    ensures
        trim_start(input) == input.skip(n),
    decreases n,
{
    if n > 0 {
        let rest = input.skip(1);
        assert forall|i: int| 0 <= i < n - 1 implies #[trigger] rest[i] <= 0x20 by {
            assert(rest[i] == input[i + 1]);
        }
        assert(input[0] <= 0x20);
        lemma_trim_start(rest, n - 1);
        assert(rest.skip(n - 1) =~= input.skip(n));
    } else {
        assert(input.skip(0) =~= input);
    }
}

/// Whether `input`, apart from leading spaces and control characters, begins with an
/// armored OpenPGP message.
pub fn has_decrypted_pgp_armor(input: &[u8]) -> (r: bool)
    ensures
        r == is_armored(input@),
{
    let mut index: usize = 0;
    while index < input.len() && input[index] <= 0x20
        invariant
            index <= input.len(),
            forall|i: int| 0 <= i < index ==> #[trigger] input@[i] <= 0x20,
        decreases input.len() - index,
    {
        index = index + 1;
    }
    let header = "-----BEGIN PGP MESSAGE-----".as_bytes();
    let ghost rest = input@.skip(index as int);
    proof {
        lemma_trim_start(input@, index as int);
        reveal_strlit("-----BEGIN PGP MESSAGE-----");
        assert("-----BEGIN PGP MESSAGE-----".is_ascii());
        assert(header@ =~= armor_header());
    }
    if input.len() - index < header.len() {
        return false;
    }
    let mut k: usize = 0;
    while k < header.len()
        invariant
            k <= header.len() <= input.len() - index,
            index <= input.len(),
            header@ == armor_header(),
            rest == input@.skip(index as int),
            trim_start(input@) == rest,
            forall|j: int| 0 <= j < k ==> rest[j] == header@[j],
        decreases header.len() - k,
    {
        if input[index + k] != header[k] {
            assert(rest[k as int] != header@[k as int]);
            return false;
        }
        assert(rest[k as int] == input@[index + k]);
        k = k + 1;
    }
    assert(header@ =~= rest.take(header@.len() as int));
    true
}

} // verus!
