//! How large an image a directory needs.

use vstd::prelude::*;

verus! {

/// One MiB, in bytes.
pub const MIB: u64 = 1048576;

/// The least size, in MiB, that any directory is given.
pub const MIN_DIR_MB: u64 = 64;

/// An entry of a directory: the length that its metadata gives and, where it is itself a
/// directory, the entries that could be read in it.
#[derive(Debug)]
pub struct DirEntry {
    pub len: u64,
    pub children: Option<Vec<DirEntry>>,
}

/// The bytes that an entry counts for: its own length and, for a directory, its size in whole
/// MiB.
pub open spec fn entry_bytes(entry: DirEntry) -> nat
    decreases entry,
{
    entry.len as nat + match entry.children {
        Some(children) => in_mb(listing_bytes(children@)) * MIB as nat,
        None => 0,
    }
}

/// The bytes that the entries of a directory count for.
pub open spec fn listing_bytes(entries: Seq<DirEntry>) -> nat
    decreases entries,
{
    if entries.len() == 0 {
        0
    } else {
        listing_bytes(entries.drop_last()) + entry_bytes(entries.last())
    }
}

/// A number of bytes in MiB, rounded down, but no less than the least size.
pub open spec fn in_mb(bytes: nat) -> nat {
    if bytes / (MIB as nat) < MIN_DIR_MB {
        MIN_DIR_MB as nat
    } else {
        bytes / (MIB as nat)
    }
}

/// Whether the bytes that `entries` count for can be summed in 64 bits.
pub open spec fn listing_fits(entries: Seq<DirEntry>) -> bool {
    listing_bytes(entries) <= u64::MAX
}

/// The size in MiB of a directory with the given entries, where it can be summed in 64 bits.
pub fn checked_dir_size_mb(entries: &Vec<DirEntry>) -> (size: Option<u64>)
    ensures
        match size {
            Some(mb) => listing_fits(entries@) && mb == in_mb(listing_bytes(entries@)),
            None => !listing_fits(entries@),
        },
    decreases entries@,
{
    let mut total: u64 = 0;
    let mut i: usize = 0;
    assert(entries@.take(0) =~= Seq::empty());
    while i < entries.len()
        invariant
            i <= entries@.len(),
            total == listing_bytes(entries@.take(i as int)),
        decreases entries@.len() - i,
    {
        let entry = &entries[i];
        proof {
            assert(entries@.take(i as int + 1).drop_last() =~= entries@.take(i as int));
            assert(entries@.take(i as int + 1).last() == *entry);
            lemma_listing_bytes_grow(entries@, i as int + 1);
            assert(decreases_to!(entries@ => entries@[i as int]));
            assert(listing_bytes(entries@.take(i as int + 1)) == total + entry_bytes(*entry));
            assert(entry_bytes(*entry) == entry.len as nat + match entry.children {
                Some(children) => in_mb(listing_bytes(children@)) * MIB as nat,
                None => 0,
            });
        }
        let nested: u64 = match &entry.children {
            Some(children) => {
                match checked_dir_size_mb(children) {
                    Some(mb) => {
                        assert(mb <= u64::MAX / MIB) by {
                            let b = listing_bytes(children@);
                            assert(b / (MIB as nat) <= u64::MAX / MIB);
                        }
                        mb * MIB
                    },
                    None => {
                        proof {
                            let b = listing_bytes(children@);
                            assert(b > u64::MAX);
                            assert(in_mb(b) * MIB as nat > u64::MAX);
                        }
                        return None;
                    },
                }
            },
            None => 0,
        };
        match total.checked_add(entry.len) {
            Some(sum) => match sum.checked_add(nested) {
                Some(sum) => {
                    total = sum;
                },
                None => {
                    return None;
                },
            },
            None => {
                return None;
            },
        }
        i = i + 1;
    }
    assert(entries@.take(i as int) =~= entries@);
    let mb: u64 = total / MIB;
    if mb < MIN_DIR_MB {
        Some(MIN_DIR_MB)
    } else {
        Some(mb)
    }
}

/// The size in MiB of a directory with the given entries.
pub fn dir_size_mb(entries: &Vec<DirEntry>) -> (mb: u64)
    requires
        listing_fits(entries@),
    ensures
        mb == in_mb(listing_bytes(entries@)),
        MIN_DIR_MB <= mb <= u64::MAX / MIB,
{
    match checked_dir_size_mb(entries) {
        Some(mb) => mb,
        None => MIN_DIR_MB,
    }
}

/// The first entries of a directory count for no more than all of them.
pub proof fn lemma_listing_bytes_grow(entries: Seq<DirEntry>, n: int)
    requires
        0 <= n <= entries.len(),
    ensures
        listing_bytes(entries.take(n)) <= listing_bytes(entries),
    decreases entries.len() - n,
{
    if n == entries.len() {
        assert(entries.take(n) =~= entries);
    } else {
        lemma_listing_bytes_grow(entries, n + 1);
        assert(entries.take(n + 1).drop_last() =~= entries.take(n));
    }
}

// ── Laws ─────────────────────────────────────────────────────────────────────

/// Sizes add up: two listings together count for what each counts for.
pub proof fn law_listings_add_up(a: Seq<DirEntry>, b: Seq<DirEntry>)
    ensures
        listing_bytes(a + b) == listing_bytes(a) + listing_bytes(b),
        listing_bytes(Seq::empty()) == 0,
    decreases b.len(),
{
    if b.len() == 0 {
        assert(a + b =~= a);
    } else {
        assert((a + b).drop_last() =~= a + b.drop_last());
        law_listings_add_up(a, b.drop_last());
    }
}

/// A file alone counts for its length, a directory alone for its own length and the size in whole
/// MiB, of at least 64, of what is in it.
pub proof fn law_one_entry_counts(e: DirEntry)
    ensures
        e.children is None ==> listing_bytes(seq![e]) == e.len,
        e.children matches Some(children) ==> {
            let inner = listing_bytes(children@) as int;
            let mb = if inner < 64 * 1048576 {
                64
            } else {
                inner / 1048576
            };
            listing_bytes(seq![e]) == e.len + mb * 1048576
        },
{
    let one = seq![e];
    assert(one.drop_last() =~= Seq::empty());
    assert(listing_bytes(one.drop_last()) == 0);
    assert(listing_bytes(one) == entry_bytes(one.last()));
    assert(entry_bytes(e) == e.len as nat + match e.children {
        Some(children) => in_mb(listing_bytes(children@)) * MIB as nat,
        None => 0,
    });
    if e.children is Some {
        let inner = listing_bytes(e.children->0@);
        law_size_in_mb(inner);
    }
}

/// The order of the entries does not matter.
pub proof fn law_listing_order_does_not_matter(a: Seq<DirEntry>, b: Seq<DirEntry>)
    ensures
        listing_bytes(a + b) == listing_bytes(b + a),
{
    law_listings_add_up(a, b);
    law_listings_add_up(b, a);
}

/// A size in MiB is the whole number of MiB in the bytes, but no less than 64.
pub proof fn law_size_in_mb(bytes: nat)
    ensures
        in_mb(bytes) >= 64,
        bytes < (in_mb(bytes) + 1) * 1048576,
        in_mb(bytes) > 64 ==> in_mb(bytes) * 1048576 <= bytes,
        bytes >= 64 * 1048576 ==> in_mb(bytes) * 1048576 <= bytes,
{
}

/// A directory's size holds every entry of it: counted in bytes, with what rounding down can
/// lose, it exceeds the length of each file and the size of each directory in it.
pub proof fn law_size_holds_each_entry(entries: Seq<DirEntry>, i: int)
    requires
        0 <= i < entries.len(),
    ensures
        entries[i].len < (in_mb(listing_bytes(entries)) + 1) * 1048576,
        entries[i].children matches Some(children) ==> in_mb(listing_bytes(children@)) <= in_mb(
            listing_bytes(entries),
        ),
{
    let before = entries.take(i);
    let one = seq![entries[i]];
    let rest = entries.skip(i + 1);
    assert(before + one + rest =~= entries);
    law_listings_add_up(before + one, rest);
    law_listings_add_up(before, one);
    law_one_entry_counts(entries[i]);
    law_size_in_mb(listing_bytes(entries));
    match entries[i].children {
        Some(children) => {
            law_size_in_mb(listing_bytes(children@));
        },
        None => {},
    }
}

/// The sum of the lengths of some entries.
pub open spec fn total_len(entries: Seq<DirEntry>) -> nat
    decreases entries.len(),
{
    if entries.len() == 0 {
        0
    } else {
        entries[0].len as nat + total_len(entries.drop_first())
    }
}

/// A directory of plain files has the size of all its files together, rounded down to whole MiB,
/// and of at least 64 MiB. What other entries there are only adds to it.
pub proof fn law_size_holds_all_files(entries: Seq<DirEntry>)
    ensures
        total_len(entries) <= listing_bytes(entries),
        total_len(entries) < (in_mb(listing_bytes(entries)) + 1) * 1048576,
        (forall|i: int| 0 <= i < entries.len() ==> (#[trigger] entries[i]).children is None)
            ==> listing_bytes(entries) == total_len(entries),
    decreases entries.len(),
{
    law_size_in_mb(listing_bytes(entries));
    if entries.len() > 0 {
        let first = seq![entries[0]];
        let rest = entries.drop_first();
        assert(first + rest =~= entries);
        law_listings_add_up(first, rest);
        law_one_entry_counts(entries[0]);
        law_size_holds_all_files(rest);
        if forall|i: int| 0 <= i < entries.len() ==> (#[trigger] entries[i]).children is None {
            assert forall|i: int| 0 <= i < rest.len() implies (#[trigger] rest[i]).children is None by {
                assert(rest[i] == entries[i + 1]);
            }
        }
    }
}

/// A listing can be summed exactly where its bytes are a number of 64 bits. Then so can every
/// listing that is a part of it.
pub proof fn law_what_can_be_summed(a: Seq<DirEntry>, b: Seq<DirEntry>)
    ensures
        listing_fits(a) <==> listing_bytes(a) < 0x1_0000_0000_0000_0000,
        listing_fits(a + b) ==> listing_fits(a) && listing_fits(b),
{
    law_listings_add_up(a, b);
}

} // verus!
