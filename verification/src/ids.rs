//! Identifiers of media items, streams, groups and users, which are UUIDs.
use vstd::prelude::*;

verus! {

/// A UUID as the number that its sixteen bytes write, the first byte first.
pub type Id = u128;

/// The small hexadecimal digit that writes a number below sixteen.
pub open spec fn hex_char(n: int) -> char {
    if n < 10 {
        (n + '0' as int) as char
    } else {
        (n - 10 + 'a' as int) as char
    }
}

/// The last `width` hexadecimal digits of a number.
pub open spec fn hex_digits(n: nat, width: nat) -> Seq<char>
    decreases width,
{
    if width == 0 {
        seq![]
    } else {
        hex_digits(n / 16, (width - 1) as nat).push(hex_char(n as int % 16))
    }
}

/// The usual text of a UUID: its 32 hexadecimal digits, in groups of 8, 4, 4, 4
/// and 12 with a hyphen between each two.
pub open spec fn id_text(id: Id) -> Seq<char> {
    let digits = hex_digits(id as nat, 32);
    digits.subrange(0, 8) + seq!['-'] + digits.subrange(8, 12) + seq!['-'] + digits.subrange(12, 16)
        + seq!['-'] + digits.subrange(16, 20) + seq!['-'] + digits.subrange(20, 32)
}

/// `uuid::Uuid::from_u128` and `to_string`: the UUID of a number, whose first
/// byte is the highest of the number, as small hexadecimal digits with hyphens.
#[verifier::external_body]
pub(crate) fn text_of_id(id: Id) -> (r: String)
    ensures
        r@ == id_text(id),
{
    uuid::Uuid::from_u128(id).to_string()
}

/// `uuid::Uuid::new_v4`, as a number: a random UUID, of which nothing is known
/// but that it is marked as one of version 4 and of the usual variant.
#[verifier::external_body]
pub(crate) fn random_id() -> (r: Id)
    ensures
        is_random_id(r),
{
    uuid::Uuid::new_v4().as_u128()
}

/// Whether an identifier is marked as a random one: its version is 4, and the
/// bits of its variant are `10`.
pub open spec fn is_random_id(id: Id) -> bool {
    (id as nat / 0x1000_0000_0000_0000_0000) % 16 == 4 && (id as nat / 0x4000_0000_0000_0000) % 4
        == 2
}

proof fn lemma_hex_len(n: nat, width: nat)
    ensures
        hex_digits(n, width).len() == width,
    decreases width,
{
    if width > 0 {
        lemma_hex_len(n / 16, (width - 1) as nat);
    }
}

/// Sixteen to the given power.
spec fn hex_range(width: nat) -> nat
    decreases width,
{
    if width == 0 {
        1
    } else {
        16 * hex_range((width - 1) as nat)
    }
}

proof fn lemma_hex_differs(a: nat, b: nat, width: nat)
    requires
        a < hex_range(width),
        b < hex_range(width),
        hex_digits(a, width) == hex_digits(b, width),
    ensures
        a == b,
    decreases width,
{
    if width > 0 {
        let w = (width - 1) as nat;
        let da = hex_digits(a, width);
        let db = hex_digits(b, width);
        assert(da.last() == hex_char(a as int % 16));
        assert(db.last() == hex_char(b as int % 16));
        assert(da.drop_last() == hex_digits(a / 16, w));
        assert(db.drop_last() == hex_digits(b / 16, w));
        lemma_hex_differs(a / 16, b / 16, w);
    }
}

/// The text of an identifier has 36 characters.
pub proof fn id_text_len(id: Id)
    ensures
        id_text(id).len() == 36,
{
    lemma_hex_len(id as nat, 32);
}

/// Different identifiers have different texts.
pub proof fn id_texts_differ(a: Id, b: Id)
    requires
        id_text(a) == id_text(b),
    ensures
        a == b,
{
    lemma_hex_len(a as nat, 32);
    lemma_hex_len(b as nat, 32);
    let da = hex_digits(a as nat, 32);
    let db = hex_digits(b as nat, 32);
    assert forall|i: int| 0 <= i < 32 implies da[i] == db[i] by {
        let p = if i < 8 {
            i
        } else if i < 12 {
            i + 1
        } else if i < 16 {
            i + 2
        } else if i < 20 {
            i + 3
        } else {
            i + 4
        };
        assert(id_text(a)[p] == da[i]);
        assert(id_text(b)[p] == db[i]);
    }
    assert(da =~= db);
    assert(hex_range(32) == 0x1_0000_0000_0000_0000_0000_0000_0000_0000) by {
        reveal_with_fuel(hex_range, 33);
    }
    lemma_hex_differs(a as nat, b as nat, 32);
}

/// The number that small hexadecimal digits write.
pub open spec fn hex_value(s: Seq<char>) -> int
    decreases s.len(),
{
    if s.len() == 0 {
        0
    } else {
        let c = s.last();
        16 * hex_value(s.drop_last()) + (if '0' <= c <= '9' {
            c as int - '0' as int
        } else {
            c as int - 'a' as int + 10
        })
    }
}

proof fn lemma_hex_reads_back(n: nat, width: nat)
    requires
        n < hex_range(width),
    ensures
        hex_value(hex_digits(n, width)) == n,
    decreases width,
{
    if width > 0 {
        let w = (width - 1) as nat;
        lemma_hex_reads_back(n / 16, w);
        let d = hex_digits(n, width);
        assert(d.drop_last() =~= hex_digits(n / 16, w));
        assert(d.last() == hex_char(n as int % 16));
    }
}

/// The digits of an identifier's text, read without the hyphens between them, are the
/// identifier.
pub proof fn id_text_reads_back(id: Id)
    ensures
        ({
            let t = id_text(id);
            &&& t[8] == '-' && t[13] == '-' && t[18] == '-' && t[23] == '-'
            &&& hex_value(
                t.subrange(0, 8) + t.subrange(9, 13) + t.subrange(14, 18) + t.subrange(19, 23)
                    + t.subrange(24, 36),
            ) == id
        }),
{
    id_text_len(id);
    lemma_hex_len(id as nat, 32);
    let t = id_text(id);
    let d = hex_digits(id as nat, 32);
    assert(t.subrange(0, 8) + t.subrange(9, 13) + t.subrange(14, 18) + t.subrange(19, 23)
        + t.subrange(24, 36) =~= d);
    assert(hex_range(32) == 0x1_0000_0000_0000_0000_0000_0000_0000_0000) by {
        reveal_with_fuel(hex_range, 33);
    }
    lemma_hex_reads_back(id as nat, 32);
}

} // verus!
