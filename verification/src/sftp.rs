//! The file-transfer session: building directory listings — permission
//! strings, joined paths, and the ordering directories-first then
//! case-insensitive by name — and the session records the registry tracks.
//! The driver outside the crate speaks the file-transfer protocol; every
//! entry it hands over is shaped and ordered here.

use vstd::prelude::*;
use crate::errors::CoreError;
use crate::models::{FileEntry, FileEntryV};
use crate::registry::Registry;

verus! {

/// What `str::to_lowercase` turns this character sequence into.
pub uninterp spec fn lower_of(s: Seq<char>) -> Seq<char>;

/// Relies on `str::to_lowercase`: the result depends on the characters
/// alone.
#[verifier::external_body]
fn lowercase(s: &str) -> (r: String)
    ensures
        r@ == lower_of(s@),
{
    s.to_lowercase()
}

/// Lexicographic order on character sequences, by code point; a prefix sorts
/// before what extends it.
pub open spec fn lex_le(a: Seq<char>, b: Seq<char>) -> bool
    decreases a.len(),
{
    if a.len() == 0 {
        true
    } else if b.len() == 0 {
        false
    } else if a[0] == b[0] {
        lex_le(a.drop_first(), b.drop_first())
    } else {
        (a[0] as u32) < (b[0] as u32)
    }
}

/// Dropping an equal prefix does not change the order.
proof fn lemma_lex_skip(a: Seq<char>, b: Seq<char>, k: int)
    requires
        0 <= k <= a.len(),
        k <= b.len(),
        forall|j: int| 0 <= j < k ==> a[j] == b[j],
    ensures
        lex_le(a, b) == lex_le(a.skip(k), b.skip(k)),
    decreases k,
{
    if k > 0 {
        assert(a[0] == b[0]);
        lemma_lex_skip(a.drop_first(), b.drop_first(), k - 1);
        assert(a.skip(k) =~= a.drop_first().skip(k - 1));
        assert(b.skip(k) =~= b.drop_first().skip(k - 1));
    } else {
        assert(a.skip(0) =~= a);
        assert(b.skip(0) =~= b);
    }
}

/// The order is total.
proof fn lemma_lex_total(a: Seq<char>, b: Seq<char>)
    ensures
        lex_le(a, b) || lex_le(b, a),
    decreases a.len(),
{
    if a.len() == 0 || b.len() == 0 {
    } else if a[0] == b[0] {
        lemma_lex_total(a.drop_first(), b.drop_first());
    } else {
        vstd::utf8::char_u32_cast(a[0], a[0] as u32);
        vstd::utf8::char_u32_cast(b[0], b[0] as u32);
        assert((a[0] as u32) != (b[0] as u32));
    }
}

/// The order is transitive.
proof fn lemma_lex_trans(a: Seq<char>, b: Seq<char>, c: Seq<char>)
    requires
        lex_le(a, b),
        lex_le(b, c),
    ensures
        lex_le(a, c),
    decreases a.len(),
{
    if a.len() == 0 || b.len() == 0 || c.len() == 0 {
    } else {
        vstd::utf8::char_u32_cast(a[0], a[0] as u32);
        vstd::utf8::char_u32_cast(b[0], b[0] as u32);
        vstd::utf8::char_u32_cast(c[0], c[0] as u32);
        if a[0] == b[0] && b[0] == c[0] {
            lemma_lex_trans(a.drop_first(), b.drop_first(), c.drop_first());
        }
    }
}

/// Compare two strings in the lexicographic order.
pub fn lex_le_exec(a: &str, b: &str) -> (r: bool)
    ensures
        r == lex_le(a@, b@),
{
    let na = a.unicode_len();
    let nb = b.unicode_len();
    let mut k: usize = 0;
    loop
        invariant
            k <= na,
            k <= nb,
            na == a@.len(),
            nb == b@.len(),
            forall|j: int| 0 <= j < k ==> a@[j] == b@[j],
        decreases na - k,
    {
        if k == na {
            proof {
                lemma_lex_skip(a@, b@, k as int);
                assert(a@.skip(k as int).len() == 0);
            }
            return true;
        }
        if k == nb {
            proof {
                lemma_lex_skip(a@, b@, k as int);
                assert(b@.skip(k as int).len() == 0);
                assert(a@.skip(k as int).len() > 0);
            }
            return false;
        }
        let ca = a.get_char(k);
        let cb = b.get_char(k);
        if ca != cb {
            proof {
                lemma_lex_skip(a@, b@, k as int);
                assert(a@.skip(k as int)[0] == a@[k as int]);
                assert(b@.skip(k as int)[0] == b@[k as int]);
            }
            return (ca as u32) < (cb as u32);
        }
        k = k + 1;
    }
}

/// One permission flag: the letter when the bit is set, `-` otherwise, and
/// `-` throughout when the remote side reported no permission bits at all.
pub open spec fn perm_flag(p: Option<u32>, mask: u32, letter: char) -> char {
    match p {
        Option::Some(v) => if v & mask != 0 {
            letter
        } else {
            '-'
        },
        Option::None => '-',
    }
}

/// The 9-character symbolic permission string of an entry: the directory
/// flag, then owner read-write-execute, group read-write-execute, and other
/// read-write.
pub open spec fn perm_chars(is_dir: bool, p: Option<u32>) -> Seq<char> {
    seq![
        if is_dir {
            'd'
        } else {
            '-'
        },
        perm_flag(p, 0o400, 'r'),
        perm_flag(p, 0o200, 'w'),
        perm_flag(p, 0o100, 'x'),
        perm_flag(p, 0o040, 'r'),
        perm_flag(p, 0o020, 'w'),
        perm_flag(p, 0o010, 'x'),
        perm_flag(p, 0o004, 'r'),
        perm_flag(p, 0o002, 'w'),
    ]
}

/// Append one flag letter, or `-`, to the string being built.
fn append_flag(s: &mut String, on: bool, letter: &str)
    requires
        letter@.len() == 1,
    ensures
        final(s)@ == old(s)@ + (if on {
            letter@
        } else {
            seq!['-']
        }),
{
    proof {
        reveal_strlit("-");
        assert("-"@ =~= seq!['-']);
    }
    if on {
        s.append(letter);
    } else {
        s.append("-");
    }
}

/// Render the symbolic permission string of an entry.
pub fn permissions_string(is_dir: bool, permissions: Option<u32>) -> (r: String)
    ensures
        r@ == perm_chars(is_dir, permissions),
{
    proof {
        reveal_strlit("d");
        reveal_strlit("r");
        reveal_strlit("w");
        reveal_strlit("x");
        assert("d"@ =~= seq!['d']);
        assert("r"@ =~= seq!['r']);
        assert("w"@ =~= seq!['w']);
        assert("x"@ =~= seq!['x']);
    }
    let bits = match permissions {
        Some(v) => v,
        None => 0,
    };
    let mut s = String::new();
    append_flag(&mut s, is_dir, "d");
    append_flag(&mut s, permissions.is_some() && bits & 0o400 != 0, "r");
    append_flag(&mut s, permissions.is_some() && bits & 0o200 != 0, "w");
    append_flag(&mut s, permissions.is_some() && bits & 0o100 != 0, "x");
    append_flag(&mut s, permissions.is_some() && bits & 0o040 != 0, "r");
    append_flag(&mut s, permissions.is_some() && bits & 0o020 != 0, "w");
    append_flag(&mut s, permissions.is_some() && bits & 0o010 != 0, "x");
    append_flag(&mut s, permissions.is_some() && bits & 0o004 != 0, "r");
    append_flag(&mut s, permissions.is_some() && bits & 0o002 != 0, "w");
    proof {
        assert(s@ =~= perm_chars(is_dir, permissions));
    }
    s
}

/// A parent path with its trailing separators taken off.
pub open spec fn trim_trailing_slashes(p: Seq<char>) -> Seq<char>
    decreases p.len(),
{
    if p.len() > 0 && p.last() == '/' {
        trim_trailing_slashes(p.drop_last())
    } else {
        p
    }
}

/// The full path of an entry: the parent, trailing separators trimmed,
/// joined to the name with a single separator.
pub open spec fn joined_path(parent: Seq<char>, name: Seq<char>) -> Seq<char> {
    trim_trailing_slashes(parent) + seq!['/'] + name
}

/// The trimmed parent is its prefix up to the first of the trailing slashes.
proof fn lemma_trim_prefix(p: Seq<char>, k: int)
    requires
        0 <= k <= p.len(),
        forall|i: int| k <= i < p.len() ==> p[i] == '/',
        k > 0 ==> p[k - 1] != '/',
    ensures
        trim_trailing_slashes(p) == p.subrange(0, k),
    decreases p.len(),
{
    if p.len() == k {
        assert(p.subrange(0, k) =~= p);
    } else {
        assert(p.last() == '/');
        lemma_trim_prefix(p.drop_last(), k);
        assert(p.drop_last().subrange(0, k) =~= p.subrange(0, k));
    }
}

/// Join a parent path and a name.
pub fn join_path(parent: &str, name: &str) -> (r: String)
    ensures
        r@ == joined_path(parent@, name@),
{
    let n = parent.unicode_len();
    let mut k: usize = n;
    while k > 0 && parent.get_char(k - 1) == '/'
        invariant
            k <= n,
            n == parent@.len(),
            forall|i: int| k <= i < n ==> parent@[i] == '/',
        decreases k,
    {
        k = k - 1;
    }
    proof {
        lemma_trim_prefix(parent@, k as int);
    }
    let trimmed = parent.substring_char(0, k);
    let mut s = trimmed.to_owned();
    proof {
        reveal_strlit("/");
        assert("/"@ =~= seq!['/']);
    }
    s.append("/");
    s.append(name);
    s
}

/// What the driver reports of one remote directory entry, as plain values.
pub struct RawDirEntry {
    pub name: String,
    pub is_dir: bool,
    pub size: Option<u64>,
    pub mtime: Option<u32>,
    pub permissions: Option<u32>,
}

/// The listing entry a raw report shapes into: name kept, path joined under
/// the listed directory, absent size or time read as zero, and the symbolic
/// permission string.
pub open spec fn entry_v_of(parent: Seq<char>, raw: RawDirEntry) -> FileEntryV {
    FileEntryV {
        name: raw.name@,
        path: joined_path(parent, raw.name@),
        is_dir: raw.is_dir,
        size: match raw.size {
            Option::Some(s) => s,
            Option::None => 0,
        },
        modified: match raw.mtime {
            Option::Some(t) => t as i64,
            Option::None => 0,
        },
        permissions: perm_chars(raw.is_dir, raw.permissions),
    }
}

/// Shape one raw report into a listing entry.
pub fn build_entry(parent: &str, raw: &RawDirEntry) -> (r: FileEntry)
    ensures
        r@ == entry_v_of(parent@, *raw),
{
    let size = match raw.size {
        Some(s) => s,
        None => 0,
    };
    let modified: i64 = match raw.mtime {
        Some(t) => t as i64,
        None => 0,
    };
    FileEntry {
        name: raw.name.clone(),
        path: join_path(parent, raw.name.as_str()),
        is_dir: raw.is_dir,
        size,
        modified,
        permissions: permissions_string(raw.is_dir, raw.permissions),
    }
}

/// The listing order: directories sort before files; within each group,
/// case-insensitive lexicographic by name.
pub open spec fn entry_le(a: FileEntryV, b: FileEntryV) -> bool {
    if a.is_dir != b.is_dir {
        a.is_dir
    } else {
        lex_le(lower_of(a.name), lower_of(b.name))
    }
}

/// The lexicographic order is reflexive.
proof fn lemma_lex_refl(a: Seq<char>)
    ensures
        lex_le(a, a),
    decreases a.len(),
{
    if a.len() > 0 {
        lemma_lex_refl(a.drop_first());
    }
}

/// The listing order is total.
proof fn lemma_entry_total(a: FileEntryV, b: FileEntryV)
    ensures
        entry_le(a, b) || entry_le(b, a),
{
    if a.is_dir == b.is_dir {
        lemma_lex_total(lower_of(a.name), lower_of(b.name));
    }
}

/// The listing order is reflexive.
proof fn lemma_entry_refl(a: FileEntryV)
    ensures
        entry_le(a, a),
{
    lemma_lex_refl(lower_of(a.name));
}

/// The listing order is transitive.
proof fn lemma_entry_trans(a: FileEntryV, b: FileEntryV, c: FileEntryV)
    requires
        entry_le(a, b),
        entry_le(b, c),
    ensures
        entry_le(a, c),
{
    if a.is_dir == b.is_dir && b.is_dir == c.is_dir {
        lemma_lex_trans(lower_of(a.name), lower_of(b.name), lower_of(c.name));
    }
}

/// Compare two entries in the listing order.
fn entry_le_exec(a: &FileEntry, b: &FileEntry) -> (r: bool)
    ensures
        r == entry_le((*a)@, (*b)@),
{
    if a.is_dir != b.is_dir {
        a.is_dir
    } else {
        let la = lowercase(a.name.as_str());
        let lb = lowercase(b.name.as_str());
        lex_le_exec(la.as_str(), lb.as_str())
    }
}

/// Sort a listing into the listing order: the same entries, directories
/// first, names compared case-insensitively within each group.
pub fn sort_entries(entries: Vec<FileEntry>) -> (r: Vec<FileEntry>)
    ensures
        r.deep_view().to_multiset() == entries.deep_view().to_multiset(),
        r@.len() == entries@.len(),
        forall|i: int, j: int|
            0 <= i < j < r@.len() ==> entry_le(
                #[trigger] r.deep_view()[i],
                #[trigger] r.deep_view()[j],
            ),
{
    broadcast use vstd::seq_lib::group_to_multiset_ensures;

    let ghost input_ms = entries.deep_view().to_multiset();
    let ghost input_len = entries@.len();
    let mut rem = entries;
    let mut out: Vec<FileEntry> = Vec::new();
    while rem.len() > 0
        invariant
            out.deep_view().to_multiset().add(rem.deep_view().to_multiset()) =~= input_ms,
            out@.len() + rem@.len() == input_len,
            forall|i: int, j: int|
                0 <= i < j < out@.len() ==> entry_le(
                    #[trigger] out.deep_view()[i],
                    #[trigger] out.deep_view()[j],
                ),
            forall|x: int, y: int|
                0 <= x < out@.len() && 0 <= y < rem@.len() ==> entry_le(
                    #[trigger] out.deep_view()[x],
                    #[trigger] rem.deep_view()[y],
                ),
        decreases rem@.len(),
    {
        let ghost remdv = rem.deep_view();
        let n = rem.len();
        let mut m: usize = 0;
        proof {
            lemma_entry_refl(remdv[0]);
        }
        for j in 1..n
            invariant
                m < j <= n,
                n == rem@.len(),
                remdv == rem.deep_view(),
                forall|k: int| 0 <= k < j ==> entry_le(remdv[m as int], #[trigger] remdv[k]),
        {
            proof {
                assert(rem.deep_view()[j as int] == rem@[j as int]@);
                assert(rem.deep_view()[m as int] == rem@[m as int]@);
            }
            if !entry_le_exec(&rem[m], &rem[j]) {
                proof {
                    lemma_entry_total(remdv[m as int], remdv[j as int]);
                    assert(entry_le(remdv[j as int], remdv[m as int]));
                    assert forall|k: int| 0 <= k < j + 1 implies entry_le(
                        remdv[j as int],
                        #[trigger] remdv[k],
                    ) by {
                        if k < j {
                            lemma_entry_trans(remdv[j as int], remdv[m as int], remdv[k]);
                        } else {
                            lemma_entry_refl(remdv[j as int]);
                        }
                    }
                }
                m = j;
            }
        }
        let ghost out_snap = out;
        let ghost rem_snap = rem;
        let picked = rem.remove(m);
        let ghost pv = picked@;
        out.push(picked);
        proof {
            assert(pv == remdv[m as int]);
            assert forall|k: int| 0 <= k < rem@.len() implies #[trigger] rem.deep_view()[k]
                == remdv.remove(m as int)[k] by {
                assert(rem.deep_view()[k] == rem@[k].deep_view());
                if k < m as int {
                    assert(rem@[k] == rem_snap@[k]);
                } else {
                    assert(rem@[k] == rem_snap@[k + 1]);
                }
            }
            assert(rem.deep_view() =~= remdv.remove(m as int));
            assert forall|k: int| 0 <= k < out@.len() implies #[trigger] out.deep_view()[k]
                == out_snap.deep_view().push(pv)[k] by {
                assert(out.deep_view()[k] == out@[k].deep_view());
                if k < out@.len() - 1 {
                    assert(out@[k] == out_snap@[k]);
                }
            }
            assert(out.deep_view() =~= out_snap.deep_view().push(pv));
            assert(remdv.contains(remdv[m as int]));
            out_snap.deep_view().to_multiset_ensures();
            remdv.to_multiset_ensures();
            assert(out.deep_view() == out_snap.deep_view().push(pv));
            assert(out_snap.deep_view().push(pv).to_multiset() =~= out_snap.deep_view().to_multiset().insert(pv));
            assert(rem.deep_view() == remdv.remove(m as int));
            assert(remdv.remove(m as int).to_multiset() =~= remdv.to_multiset().remove(
                remdv[m as int],
            ));
            assert(out.deep_view().to_multiset() =~= out_snap.deep_view().to_multiset().insert(pv));
            assert(rem.deep_view().to_multiset() =~= remdv.to_multiset().remove(pv));
            assert(out.deep_view().to_multiset().add(rem.deep_view().to_multiset())
                =~= out_snap.deep_view().to_multiset().add(remdv.to_multiset()));
        }
    }
    out
}

/// Shape and order a whole directory listing: each raw report shaped as
/// [`entry_v_of`] describes, the result sorted in the listing order.
pub fn build_listing(parent: &str, raw: &Vec<RawDirEntry>) -> (r: Vec<FileEntry>)
    ensures
        r.deep_view().to_multiset() == raw@.map_values(
            |e: RawDirEntry| entry_v_of(parent@, e),
        ).to_multiset(),
        r@.len() == raw@.len(),
        forall|i: int, j: int|
            0 <= i < j < r@.len() ==> entry_le(
                #[trigger] r.deep_view()[i],
                #[trigger] r.deep_view()[j],
            ),
{
    let n = raw.len();
    let mut entries: Vec<FileEntry> = Vec::new();
    for i in 0..n
        invariant
            n == raw@.len(),
            entries@.len() == i,
            forall|k: int|
                0 <= k < i ==> #[trigger] entries.deep_view()[k] == entry_v_of(parent@, raw@[k]),
    {
        let e = build_entry(parent, &raw[i]);
        let ghost snap = entries;
        entries.push(e);
        proof {
            assert forall|k: int| 0 <= k < i + 1 implies #[trigger] entries.deep_view()[k]
                == entry_v_of(parent@, raw@[k]) by {
                assert(entries.deep_view()[k] == entries@[k].deep_view());
                if k < i as int {
                    assert(entries@[k] == snap@[k]);
                    assert(snap.deep_view()[k] == snap@[k].deep_view());
                }
            }
        }
    }
    proof {
        assert(entries.deep_view() =~= raw@.map_values(|e: RawDirEntry| entry_v_of(parent@, e)));
    }
    sort_entries(entries)
}

/// One file-transfer session: a registered id is an open session; removal
/// from the registry is what closes it.
pub struct FileTransferSession {
    pub session_id: String,
}

/// Every file-transfer operation requires its session to be registered and
/// not yet closed; an unknown id is `NotFound`.
pub fn require_session(sessions: &Registry<FileTransferSession>, id: &str) -> (r: Result<
    (),
    CoreError,
>)
    requires
        sessions.wf(),
    ensures
        r is Ok <==> sessions.m().contains_key(id@),
        r matches Err(e) ==> e == CoreError::NotFound,
{
    if sessions.contains(id) {
        Ok(())
    } else {
        Err(CoreError::NotFound)
    }
}

} // verus!
