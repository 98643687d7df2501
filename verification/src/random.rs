//! Random identifiers.
use vstd::prelude::*;

use crate::text::{begins_with, chars_of};

verus! {

/// The letters and digits.
pub const ALPHANUMERIC: &'static str =
    "ABCDEFGHIJKLMNOPQRSTUVWXYZabcdefghijklmnopqrstuvwxyz0123456789";

/// The lower-case letters and digits.
pub const LOWER_ALPHANUMERIC: &'static str = "abcdefghijklmnopqrstuvwxyz0123456789";

/// Whether `id` is made of `n` characters of `charset`.
pub open spec fn drawn_from(id: Seq<char>, n: nat, charset: Seq<char>) -> bool {
    id.len() == n && forall|i: int| 0 <= i < id.len() ==> charset.contains(#[trigger] id[i])
}

/// The characters of `charset` at the given positions.
pub open spec fn picked(indices: Seq<usize>, charset: Seq<char>) -> Seq<char> {
    indices.map_values(|i: usize| charset[i as int])
}

/// `fastrand::usize`, for the range from zero up to `n`: some number below `n`. Nothing is said
/// of which one.
#[verifier::external_body]
fn random_below(n: usize) -> (r: usize)
    requires
        n > 0,
    ensures
        r < n,
{
    fastrand::usize(..n)
}

/// The text of the characters of `charset` at the given positions.
pub fn pick_chars(indices: &Vec<usize>, charset: &str) -> (r: String)
    requires
        forall|i: int| 0 <= i < indices@.len() ==> #[trigger] indices@[i] < charset@.len(),
    ensures
        r@ == picked(indices@, charset@),
        drawn_from(r@, indices@.len(), charset@),
{
    let chars = chars_of(charset);
    let mut out = String::new();
    let mut i: usize = 0;
    while i < indices.len()
        invariant
            chars@ == charset@,
            forall|i: int| 0 <= i < indices@.len() ==> #[trigger] indices@[i] < charset@.len(),
            i <= indices@.len(),
            out@ == picked(indices@.take(i as int), charset@),
        decreases indices@.len() - i,
    {
        out.push(chars[indices[i]]);
        assert(out@ =~= picked(indices@.take(i + 1), charset@));
        i = i + 1;
    }
    assert(indices@.take(i as int) == indices@);
    out
}

/// Draws `n` characters of `charset`, each on its own.
fn draw(n: usize, charset: &str) -> (r: String)
    requires
        charset@.len() > 0,
    ensures
        drawn_from(r@, n as nat, charset@),
{
    let size: usize = chars_of(charset).len();
    let mut indices: Vec<usize> = Vec::new();
    while indices.len() < n
        invariant
            size == charset@.len(),
            size > 0,
            indices@.len() <= n,
            forall|i: int| 0 <= i < indices@.len() ==> #[trigger] indices@[i] < size,
        decreases n - indices@.len(),
    {
        indices.push(random_below(size));
    }
    pick_chars(&indices, charset)
}

/// Draws 22 letters and digits.
pub fn generate_random_id_22() -> (r: String)
    ensures
        drawn_from(r@, 22, ALPHANUMERIC@),
{
    proof {
        reveal_strlit("ABCDEFGHIJKLMNOPQRSTUVWXYZabcdefghijklmnopqrstuvwxyz0123456789");
    }
    draw(22, ALPHANUMERIC)
}

/// Draws 8 lower-case letters and digits.
pub fn generate_random_id_8() -> (r: String)
    ensures
        drawn_from(r@, 8, LOWER_ALPHANUMERIC@),
{
    proof {
        reveal_strlit("abcdefghijklmnopqrstuvwxyz0123456789");
    }
    draw(8, LOWER_ALPHANUMERIC)
}

/// A message identifier with the given random part.
pub open spec fn message_id(random_22: Seq<char>) -> Seq<char> {
    "msg_01"@ + random_22
}

/// Whether `id` is a message identifier with some random part.
pub open spec fn some_message_id(id: Seq<char>) -> bool {
    exists|random_22: Seq<char>|
        drawn_from(random_22, 22, ALPHANUMERIC@) && id == #[trigger] message_id(random_22)
}

/// Draws a message identifier.
pub fn generate_message_id() -> (r: String)
    ensures
        some_message_id(r@),
{
    let random_22 = generate_random_id_22();
    let mut out = "msg_01".to_owned();
    out.append(random_22.as_str());
    assert(out@ == message_id(random_22@));
    out
}

/// A message identifier is `msg_` and 24 letters and digits, of which the first two are `01`.
pub proof fn law_message_id_shape(id: Seq<char>)
    requires
        some_message_id(id),
    ensures
        id.len() == 28,
        begins_with(id, "msg_01"@),
        drawn_from(id.skip("msg_"@.len() as int), 24, ALPHANUMERIC@),
{
    let random_22 = choose|random_22: Seq<char>|
        drawn_from(random_22, 22, ALPHANUMERIC@) && id == #[trigger] message_id(random_22);
    reveal_strlit("msg_01");
    reveal_strlit("msg_");
    assert(id.take("msg_01"@.len() as int) =~= "msg_01"@);
    lemma_zero_one_and_drawn(random_22);
    assert(id.skip("msg_"@.len() as int) =~= seq!['0', '1'] + random_22);
}

/// Letters and digits behind `01` are letters and digits.
pub proof fn lemma_zero_one_and_drawn(random_22: Seq<char>)
    requires
        drawn_from(random_22, 22, ALPHANUMERIC@),
    ensures
        drawn_from(seq!['0', '1'] + random_22, 24, ALPHANUMERIC@),
{
    reveal_strlit("ABCDEFGHIJKLMNOPQRSTUVWXYZabcdefghijklmnopqrstuvwxyz0123456789");
    assert(ALPHANUMERIC@[52] == '0');
    assert(ALPHANUMERIC@[53] == '1');
    let all = seq!['0', '1'] + random_22;
    assert forall|i: int| 0 <= i < all.len() implies ALPHANUMERIC@.contains(#[trigger] all[i]) by {
        if i >= 2 {
            assert(all[i] == random_22[i - 2]);
        }
    }
}

/// Characters are picked one by one; what is drawn has the length that was asked for, and only
/// characters of the set; and a message identifier is fixed words and its random part, whole.
pub proof fn law_picked_characters_stand_in_order(
    indices: Seq<usize>,
    charset: Seq<char>,
    id: Seq<char>,
    n: nat,
)
    ensures
        picked(indices, charset).len() == indices.len(),
        forall|i: int|
            0 <= i < indices.len() ==> #[trigger] picked(indices, charset)[i]
                == charset[indices[i] as int],
        drawn_from(id, n, charset) <==> id.len() == n && forall|c: char| #[trigger]
            id.contains(c) ==> charset.contains(c),
        message_id(id) == "msg_01"@ + id,
{
    if drawn_from(id, n, charset) {
        assert forall|c: char| #[trigger] id.contains(c) implies charset.contains(c) by {
            let i = choose|i: int| 0 <= i < id.len() && id[i] == c;
            assert(charset.contains(id[i]));
        }
    }
    if id.len() == n && forall|c: char| #[trigger] id.contains(c) ==> charset.contains(c) {
        assert forall|i: int| 0 <= i < id.len() implies charset.contains(#[trigger] id[i]) by {
            assert(id.contains(id[i]));
        }
    }
}

} // verus!
