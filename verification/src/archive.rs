//! Collision-safe archive packaging: entries stream into an in-memory
//! archive under names resolved against the names already assigned in the
//! same invocation, in input order. Storage is uncompressed by policy — the
//! inputs are already-optimized images.
use vstd::prelude::*;

use crate::names::{name_free, name_in, resolve_name, resolved_by_probe};

verus! {

/// An in-memory archive being written. The writer itself belongs to the
/// outside archive library; what is modeled is the sequence of entries
/// written so far, each a name with its stored bytes.
#[verifier::external_body]
pub struct ArchiveWriter {
    inner: zip::ZipWriter<std::io::Cursor<Vec<u8>>>,
}

/// The entries written so far, in order: each name with its stored bytes.
pub uninterp spec fn archive_entries(w: ArchiveWriter) -> Seq<(Seq<char>, Seq<u8>)>;

/// The bytes of the finished archive holding exactly these entries. With
/// the options fixed (stored, the format's default timestamp) the archive
/// is a function of its entries alone.
pub uninterp spec fn archive_bytes(entries: Seq<(Seq<char>, Seq<u8>)>) -> Seq<u8>;

/// The names of a sequence of entries, in order.
pub open spec fn entry_names(entries: Seq<(Seq<char>, Seq<u8>)>) -> Seq<Seq<char>> {
    entries.map_values(|e: (Seq<char>, Seq<u8>)| e.0)
}

/// Relies on zip::ZipWriter::new over an in-memory cursor: a fresh archive
/// holds no entries.
#[verifier::external_body]
pub fn archive_new() -> (w: ArchiveWriter)
    ensures
        archive_entries(w) == Seq::<(Seq<char>, Seq<u8>)>::empty(),
{
    ArchiveWriter { inner: zip::ZipWriter::new(std::io::Cursor::new(Vec::new())) }
}

/// Relies on zip::ZipWriter::start_file with stored (uncompressed) options
/// and std::io::Write::write_all: appends one entry under the given name,
/// kept verbatim. Over the in-memory cursor the only failures are then a
/// duplicate name and a name whose UTF-8 form overflows the format's
/// 16-bit name-length field; either happens before any entry bytes reach
/// the cursor and removes the entry again, so a failure leaves the archive
/// exactly as it was and a fresh name within the limit succeeds. Data past
/// the format's plain 32-bit size limit is kept out by the caller: such a
/// write would park its bytes in the cursor even though the entry is
/// aborted, and the finished archive would no longer be a function of its
/// entries.
#[verifier::external_body]
pub fn archive_add(w: &mut ArchiveWriter, name: &String, data: &Vec<u8>) -> (r: Result<
    (),
    String,
>)
    requires
        data@.len() <= 0xffff_ffff,
    ensures
        r matches Ok(u) ==> archive_entries(*final(w)) == archive_entries(*old(w)).push(
            (name@, data@),
        ),
        r matches Err(m) ==> archive_entries(*final(w)) == archive_entries(*old(w)),
        !entry_names(archive_entries(*old(w))).contains(name@) && 4 * name@.len() <= 65535
            ==> r is Ok,
{
    let options = zip::write::SimpleFileOptions::default().compression_method(
        zip::CompressionMethod::Stored,
    );
    w.inner.start_file(name.as_str(), options).map_err(|e| e.to_string())?;
    std::io::Write::write_all(&mut w.inner, data.as_slice()).map_err(|e| e.to_string())?;
    Ok(())
}

/// Relies on zip::ZipWriter::finish and Cursor::into_inner: the bytes of
/// the finished archive. Writing the central directory to the in-memory
/// cursor cannot fail: entry counts and offsets past the plain format
/// limits go into the large-archive records instead of erring.
#[verifier::external_body]
pub fn archive_finish(w: ArchiveWriter) -> (r: Result<Vec<u8>, String>)
    ensures
        r is Ok,
        r matches Ok(b) ==> b@ == archive_bytes(archive_entries(w)),
{
    match w.inner.finish() {
        Ok(cursor) => Ok(cursor.into_inner()),
        Err(e) => Err(e.to_string()),
    }
}

/// Each assigned name resolves its desired name against the names assigned
/// before it, in input order.
pub open spec fn names_assigned(desired: Seq<String>, assigned: Seq<String>) -> bool {
    &&& assigned.len() == desired.len()
    &&& forall|i: int|
        0 <= i < desired.len() ==> {
            let earlier = #[trigger] assigned.take(i);
            &&& name_free(earlier, None, assigned[i]@)
            &&& (name_free(earlier, None, desired[i]@) ==> assigned[i]@ == desired[i]@)
            &&& (!name_free(earlier, None, desired[i]@) ==> resolved_by_probe(
                desired[i]@,
                earlier,
                None,
                assigned[i]@,
            ))
        }
}

/// Law: names assigned against the growing list are pairwise distinct.
pub proof fn lemma_assigned_names_distinct(desired: Seq<String>, assigned: Seq<String>)
    requires
        names_assigned(desired, assigned),
    ensures
        forall|i: int, j: int|
            0 <= i < j < assigned.len() ==> (#[trigger] assigned[i])@ != (#[trigger] assigned[j])@,
{
    assert forall|i: int, j: int|
        0 <= i < j < assigned.len() implies (#[trigger] assigned[i])@ != (#[trigger] assigned[j])@ by {
        let earlier = assigned.take(j);
        assert(name_free(earlier, None, assigned[j]@));
        assert(earlier[i] == assigned[i]);
        assert(name_in(earlier, assigned[i]@));
    }
}

/// Streams `(content, desired name)` pairs into one in-memory archive. Each
/// entry's final name resolves its desired name against the names already
/// assigned in this same call — never against the destination filesystem.
/// Returns the archive bytes and the assigned names, in input order. Any
/// write failure aborts the whole archive; packaging succeeds whenever
/// every desired name and every entry's data stay within the archive
/// format's limits.
pub fn package_archive(entries: &Vec<(Vec<u8>, String)>) -> (r: Result<
    (Vec<u8>, Vec<String>),
    String,
>)
    ensures
        r matches Ok(out) ==> names_assigned(
            entries@.map_values(|e: (Vec<u8>, String)| e.1),
            out.1@,
        ),
        r matches Ok(out) ==> forall|i: int, j: int|
            0 <= i < j < out.1@.len() ==> (#[trigger] out.1@[i])@ != (#[trigger] out.1@[j])@,
        (forall|i: int|
            0 <= i < entries@.len() ==> 4 * ((#[trigger] entries@[i]).1@.len() + 24) <= 65535
                && entries@[i].0@.len() <= 0xffff_ffff) ==> r is Ok,
        r matches Ok(out) ==> out.0@ == archive_bytes(
            Seq::new(entries@.len(), |j: int| (out.1@[j]@, entries@[j].0@)),
        ),
{
    let desired = Ghost(entries@.map_values(|e: (Vec<u8>, String)| e.1));
    let mut writer = archive_new();
    let mut assigned: Vec<String> = Vec::new();
    let mut i: usize = 0;
    while i < entries.len()
        invariant
            i <= entries@.len(),
            desired@ == entries@.map_values(|e: (Vec<u8>, String)| e.1),
            assigned@.len() == i,
            names_assigned(desired@.take(i as int), assigned@),
            archive_entries(writer) == Seq::new(
                i as nat,
                |j: int| (assigned@[j]@, entries@[j].0@),
            ),
        decreases entries@.len() - i,
    {
        if entries[i].0.len() as u64 > 0xffff_ffff {
            return Err(String::from_str("Entry too large for the archive format"));
        }
        let name = resolve_name(&entries[i].1, &assigned, None);
        let ghost pre_names = entry_names(archive_entries(writer));
        match archive_add(&mut writer, &name, &entries[i].0) {
            Ok(u) => {},
            Err(e) => {
                proof {
                    let desired_i = entries@[i as int].1;
                    assert(!pre_names.contains(name@)) by {
                        if pre_names.contains(name@) {
                            let t = choose|t: int|
                                0 <= t < pre_names.len() && pre_names[t] == name@;
                            assert(archive_entries(writer)[t].0 == name@);
                            assert(assigned@[t]@ == name@);
                            assert(name_in(assigned@, name@));
                        }
                    }
                    assert(4 * name@.len() > 65535);
                    crate::names::lemma_resolved_len(desired_i@, assigned@, None, name@);
                    assert(4 * (desired_i@.len() + 24) > 65535);
                    assert(!(forall|t: int|
                        0 <= t < entries@.len() ==> 4 * ((#[trigger] entries@[t]).1@.len() + 24)
                            <= 65535 && entries@[t].0@.len() <= 0xffff_ffff));
                }
                return Err(e);
            },
        }
        let ghost prev = assigned@;
        assigned.push(name);
        proof {
            assert(assigned@ == prev.push(name));
            assert(assigned@.take(i as int) =~= prev);
            assert forall|j: int| 0 <= j < i + 1 implies {
                let earlier = #[trigger] assigned@.take(j);
                &&& name_free(earlier, None, assigned@[j]@)
                &&& (name_free(earlier, None, desired@.take(i + 1)[j]@) ==> assigned@[j]@
                    == desired@.take(i + 1)[j]@)
                &&& (!name_free(earlier, None, desired@.take(i + 1)[j]@) ==> resolved_by_probe(
                    desired@.take(i + 1)[j]@,
                    earlier,
                    None,
                    assigned@[j]@,
                ))
            } by {
                if j < i {
                    assert(assigned@.take(j) =~= prev.take(j));
                    assert(assigned@[j] == prev[j]);
                    assert(desired@.take(i + 1)[j] == desired@.take(i as int)[j]);
                } else {
                    assert(assigned@.take(j) =~= prev);
                    assert(assigned@[j] == name);
                    assert(desired@.take(i + 1)[j] == entries@[i as int].1);
                }
            }
            assert(Seq::new((i + 1) as nat, |j: int| (assigned@[j]@, entries@[j].0@)) =~= Seq::new(
                i as nat,
                |j: int| (prev[j]@, entries@[j].0@),
            ).push((name@, entries@[i as int].0@)));
            assert(Seq::new(i as nat, |j: int| (prev[j]@, entries@[j].0@)) =~= Seq::new(
                i as nat,
                |j: int| (assigned@[j]@, entries@[j].0@),
            ));
        }
        i = i + 1;
    }
    proof {
        assert(desired@.take(entries@.len() as int) =~= desired@);
    }
    let names = assigned;
    match archive_finish(writer) {
        Ok(bytes) => {
            proof {
                lemma_assigned_names_distinct(desired@, names@);
            }
            Ok((bytes, names))
        },
        Err(e) => Err(e),
    }
}

} // verus!
