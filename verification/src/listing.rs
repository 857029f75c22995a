//! The order in which the rows of each table are listed: clients and
//! suppliers by name, expenses by due date, sales from the newest to the
//! oldest. Products and payments have no order of their own and stay as the
//! store returned them.
use vstd::prelude::*;
use vstd::utf8::encode_utf8;
use crate::models::{Row, Table};
use crate::ordering::Ranked;

verus! {

/// Whether `a` is at most `b` where the two are compared byte by byte from
/// the left and a text is less than every text that it begins.
pub open spec fn bytes_le(a: Seq<u8>, b: Seq<u8>) -> bool
    decreases a.len(),
{
    if a.len() == 0 {
        true
    } else if b.len() == 0 {
        false
    } else if a[0] != b[0] {
        a[0] < b[0]
    } else {
        bytes_le(a.drop_first(), b.drop_first())
    }
}

/// Whether one name is at most another: by the bytes of their UTF-8 form.
pub open spec fn name_le(a: Seq<char>, b: Seq<char>) -> bool {
    bytes_le(encode_utf8(a), encode_utf8(b))
}

/// A common beginning does not decide the order of two texts.
proof fn lemma_bytes_le_skip(a: Seq<u8>, b: Seq<u8>, common: int)
    requires
        0 <= common <= a.len(),
        common <= b.len(),
        forall|k: int| 0 <= k < common ==> a[k] == b[k],
    ensures
        bytes_le(a, b) == bytes_le(a.skip(common), b.skip(common)),
    decreases common,
{
    if common == 0 {
        assert(a.skip(0) =~= a);
        assert(b.skip(0) =~= b);
    } else {
        assert(a[0] == b[0]);
        assert forall|k: int| 0 <= k < common - 1 implies a.drop_first()[k] == b.drop_first()[k] by {
            assert(a[k + 1] == b[k + 1]);
        }
        lemma_bytes_le_skip(a.drop_first(), b.drop_first(), common - 1);
        assert(a.drop_first().skip(common - 1) =~= a.skip(common));
        assert(b.drop_first().skip(common - 1) =~= b.skip(common));
    }
}

/// Of two texts, one is at most the other.
pub proof fn lemma_bytes_le_total(a: Seq<u8>, b: Seq<u8>)
    ensures
        bytes_le(a, b) || bytes_le(b, a),
    decreases a.len(),
{
    if a.len() > 0 && b.len() > 0 && a[0] == b[0] {
        lemma_bytes_le_total(a.drop_first(), b.drop_first());
    }
}

/// The order of texts is transitive.
pub proof fn lemma_bytes_le_transitive(a: Seq<u8>, b: Seq<u8>, c: Seq<u8>)
    requires
        bytes_le(a, b),
        bytes_le(b, c),
    ensures
        bytes_le(a, c),
    decreases a.len(),
{
    if a.len() > 0 && b.len() > 0 && c.len() > 0 && a[0] == b[0] && b[0] == c[0] {
        lemma_bytes_le_transitive(a.drop_first(), b.drop_first(), c.drop_first());
    }
}

/// Compares two names.
pub fn name_before(a: &str, b: &str) -> (le: bool)
    ensures
        le == name_le(a@, b@),
{
    let left = a.as_bytes();
    let right = b.as_bytes();
    let mut at: usize = 0;
    while at < left.len() && at < right.len()
        invariant
            at <= left@.len(),
            at <= right@.len(),
            left@ == encode_utf8(a@),
            right@ == encode_utf8(b@),
            forall|k: int| 0 <= k < at ==> left@[k] == right@[k],
        decreases left@.len() - at,
    {
        if left[at] != right[at] {
            proof {
                lemma_bytes_le_skip(left@, right@, at as int);
            }
            return left[at] < right[at];
        }
        at += 1;
    }
    proof {
        lemma_bytes_le_skip(left@, right@, at as int);
    }
    at == left.len()
}

impl Table {
    /// The place of the table among the tables.
    pub open spec fn spec_rank(self) -> u8 {
        match self {
            Table::Clients => 0,
            Table::Products => 1,
            Table::Suppliers => 2,
            Table::Expenses => 3,
            Table::Payments => 4,
            Table::Sales => 5,
        }
    }

    /// The place of the table among the tables.
    #[verifier::when_used_as_spec(spec_rank)]
    pub fn rank(self) -> (rank: u8)
        ensures
            rank == self.spec_rank(),
    {
        match self {
            Table::Clients => 0,
            Table::Products => 1,
            Table::Suppliers => 2,
            Table::Expenses => 3,
            Table::Payments => 4,
            Table::Sales => 5,
        }
    }
}

/// Whether row `a` may be listed before row `b`. Rows of one table go by the
/// order of that table; rows of different tables go by table.
pub open spec fn listed_before(a: Row, b: Row) -> bool {
    match (a, b) {
        (Row::Client(x), Row::Client(y)) => name_le(x.name@, y.name@),
        (Row::Supplier(x), Row::Supplier(y)) => name_le(x.name@, y.name@),
        (Row::Expense(x), Row::Expense(y)) => x.due_date <= y.due_date,
        (Row::Sale(x), Row::Sale(y)) => x.created_at >= y.created_at,
        _ => a.table().rank() <= b.table().rank(),
    }
}

impl Ranked for Row {
    open spec fn precedes(&self, other: &Self) -> bool {
        listed_before(*self, *other)
    }

    fn comes_before(&self, other: &Self) -> (before: bool) {
        match (self, other) {
            (Row::Client(x), Row::Client(y)) => name_before(x.name.as_str(), y.name.as_str()),
            (Row::Supplier(x), Row::Supplier(y)) => name_before(x.name.as_str(), y.name.as_str()),
            (Row::Expense(x), Row::Expense(y)) => x.due_date <= y.due_date,
            (Row::Sale(x), Row::Sale(y)) => x.created_at >= y.created_at,
            _ => self.table().rank() <= other.table().rank(),
        }
    }

    proof fn precedes_total(a: &Self, b: &Self) {
        match (*a, *b) {
            (Row::Client(x), Row::Client(y)) => {
                lemma_bytes_le_total(encode_utf8(x.name@), encode_utf8(y.name@));
            },
            (Row::Supplier(x), Row::Supplier(y)) => {
                lemma_bytes_le_total(encode_utf8(x.name@), encode_utf8(y.name@));
            },
            _ => {},
        }
    }

    proof fn precedes_transitive(a: &Self, b: &Self, c: &Self) {
        match (*a, *b, *c) {
            (Row::Client(x), Row::Client(y), Row::Client(z)) => {
                lemma_bytes_le_transitive(
                    encode_utf8(x.name@),
                    encode_utf8(y.name@),
                    encode_utf8(z.name@),
                );
            },
            (Row::Supplier(x), Row::Supplier(y), Row::Supplier(z)) => {
                lemma_bytes_le_transitive(
                    encode_utf8(x.name@),
                    encode_utf8(y.name@),
                    encode_utf8(z.name@),
                );
            },
            _ => {},
        }
    }
}

} // verus!
