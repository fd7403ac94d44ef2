//! Scanning a zip archive of playback-history exports: every entry whose
//! name ends in `.json` and contains `Audio` holds one top-level JSON array
//! of records; the scan walks the entries in archive order, reads only the
//! matching ones, and decodes their arrays element by element. Reading the
//! archive itself is delegated to the `zip` crate (see the trusted items
//! below); everything around it is verified.

use vstd::prelude::*;
use vstd::utf8::encode_utf8;
use vstd::slice::slice_subrange;
use vstd::string::StringSliceAdditionalSpecFns;
use crate::json::array_error;
use crate::json::array_spans;
use crate::json::MalformedJson;
use crate::record::deserialize;
use crate::record::lit_bytes;
use crate::record::spec_decode;
use crate::record::DecodeError;
use crate::record::SpecDecodeError;
use crate::record::SpecStream;
use crate::record::Stream;
use std::io::Cursor;
use std::io::Read;

verus! {

/// Why a whole-archive read failed. A failure of one element's decoding is
/// not here: it is yielded in place of that record and the scan goes on.
#[derive(Debug, Clone, PartialEq)]
pub enum ReadZipError {
    /// The byte source could not be read.
    Io(String),
    /// The container is not a readable zip archive, or an entry of it could
    /// not be read.
    Zip(String),
    /// A matching entry's content is not one well-formed JSON array.
    Malformed(MalformedJson),
    /// A record could not be decoded (only [`read_zip_to_end`] treats this
    /// as fatal, as its callers want the records themselves).
    Serde(DecodeError),
}

#[verifier::external_type_specification]
#[verifier::external_body]
#[verifier::reject_recursive_types(R)]
pub struct ExZipArchive<R>(zip::read::ZipArchive<R>);

#[verifier::external_type_specification]
#[verifier::external_body]
#[verifier::reject_recursive_types(T)]
pub struct ExCursor<T>(Cursor<T>);

/// The entry names of the zip archive that `bytes` holds, in archive
/// order, or `None` where `bytes` is not a readable archive. The zip
/// central directory is a function of the bytes alone.
pub uninterp spec fn zip_entry_names(bytes: Seq<u8>) -> Option<Seq<Seq<char>>>;

/// The decompressed content of each entry of the archive that `bytes`
/// holds, in archive order; `None` where the entry cannot be read back.
pub uninterp spec fn zip_entry_data(bytes: Seq<u8>) -> Seq<Option<Seq<u8>>>;

/// The bytes that an opened archive was opened from, so that the contracts
/// of the entry readers can speak of them.
pub uninterp spec fn archive_src(a: zip::read::ZipArchive<Cursor<Vec<u8>>>) -> Seq<u8>;

/// Relies on zip::ZipArchive::new over an in-memory cursor: it reads the
/// central directory, succeeding exactly when the bytes are a readable
/// archive, deterministically.
#[verifier::external_body]
fn zip_open(bytes: Vec<u8>) -> (r: Result<zip::read::ZipArchive<Cursor<Vec<u8>>>, ReadZipError>)
    ensures
        r is Ok <==> zip_entry_names(bytes@) is Some,
        r is Ok ==> archive_src(r->Ok_0) == bytes@ && zip_entry_data(bytes@).len()
            == zip_entry_names(bytes@)->0.len(),
        r is Err ==> (r->Err_0 is Io || r->Err_0 is Zip),
{
    match zip::ZipArchive::new(Cursor::new(bytes)) {
        Ok(inner) => Ok(inner),
        Err(zip::result::ZipError::Io(e)) => Err(ReadZipError::Io(e.to_string())),
        Err(e) => Err(ReadZipError::Zip(e.to_string())),
    }
}

/// Relies on zip::ZipArchive::len: the number of entries.
#[verifier::external_body]
fn zip_len(a: &zip::read::ZipArchive<Cursor<Vec<u8>>>) -> (n: usize)
    requires
        zip_entry_names(archive_src(*a)) is Some,
    ensures
        n == zip_entry_names(archive_src(*a))->0.len(),
{
    a.len()
}

/// Relies on zip::ZipArchive::name_for_index, which reads the entry's name
/// out of the central directory without opening the entry.
#[verifier::external_body]
fn zip_entry_name(a: &zip::read::ZipArchive<Cursor<Vec<u8>>>, i: usize) -> (r: Option<String>)
    requires
        zip_entry_names(archive_src(*a)) is Some,
        i < zip_entry_names(archive_src(*a))->0.len(),
    ensures
        r is Some && r->0@ == zip_entry_names(archive_src(*a))->0[i as int],
{
    a.name_for_index(i).map(|n| n.to_string())
}

/// Relies on zip::ZipArchive::by_index and std's Read::read_to_end: it
/// opens and decompresses the one entry, succeeding exactly when the entry
/// can be read back, deterministically.
#[verifier::external_body]
fn zip_read_entry(a: &mut zip::read::ZipArchive<Cursor<Vec<u8>>>, i: usize) -> (r: Result<
    Vec<u8>,
    ReadZipError,
>)
    requires
        zip_entry_names(archive_src(*old(a))) is Some,
        i < zip_entry_names(archive_src(*old(a)))->0.len(),
    ensures
        archive_src(*final(a)) == archive_src(*old(a)),
        r is Ok <==> zip_entry_data(archive_src(*old(a)))[i as int] is Some,
        r is Ok ==> r->Ok_0@ == zip_entry_data(archive_src(*old(a)))[i as int]->0,
        r is Err ==> (r->Err_0 is Io || r->Err_0 is Zip),
{
    let mut f = match a.by_index(i) {
        Ok(f) => f,
        Err(zip::result::ZipError::Io(e)) => {
            return Err(ReadZipError::Io(e.to_string()));
        },
        Err(e) => {
            return Err(ReadZipError::Zip(e.to_string()));
        },
    };
    let mut buf = Vec::new();
    match f.read_to_end(&mut buf) {
        Ok(_) => Ok(buf),
        Err(e) => Err(ReadZipError::Io(e.to_string())),
    }
}

/// The default selection: the entry name's UTF-8 form ends with `.json`
/// and contains `Audio`.
pub open spec fn name_matches(name: Seq<char>) -> bool {
    let b = encode_utf8(name);
    &&& b.len() >= 5
    &&& b.subrange(b.len() - 5, b.len() as int) == lit_bytes(".json"@)
    &&& exists|i: int|
        0 <= i && i + 5 <= b.len() && #[trigger] b.subrange(i, i + 5) == lit_bytes("Audio"@)
}

/// Byte-for-byte equality of two slices.
fn slices_eq(a: &[u8], b: &[u8]) -> (r: bool)
    ensures
        r == (a@ == b@),
{
    if a.len() != b.len() {
        proof {
            assert(a@.len() != b@.len());
        }
        return false;
    }
    let n = a.len();
    let mut i: usize = 0;
    while i < n
        invariant
            i <= n,
            n == a@.len() && n == b@.len(),
            forall|j: int| 0 <= j < i ==> a@[j] == b@[j],
        decreases n - i,
    {
        if a[i] != b[i] {
            return false;
        }
        i = i + 1;
    }
    proof {
        assert(a@ =~= b@);
    }
    true
}

/// Whether an entry name satisfies the default selection predicate.
pub fn matches_default(name: &str) -> (r: bool)
    ensures
        r == name_matches(name@),
{
    let b = name.as_bytes();
    let n = b.len();
    if n < 5 {
        return false;
    }
    if !slices_eq(slice_subrange(b, n - 5, n), ".json".as_bytes()) {
        return false;
    }
    let mut i: usize = 0;
    while i <= n - 5
        invariant
            n == b@.len(),
            n >= 5,
            i <= n,
            b@ == encode_utf8(name@),
            b@.subrange(n - 5, n as int) == lit_bytes(".json"@),
            forall|j: int| 0 <= j < i ==> #[trigger] b@.subrange(j, j + 5) != lit_bytes("Audio"@),
        decreases n - i,
    {
        if slices_eq(slice_subrange(b, i, i + 5), "Audio".as_bytes()) {
            proof {
                assert(b@.subrange(i as int, i as int + 5) == lit_bytes("Audio"@));
            }
            return true;
        }
        i = i + 1;
    }
    proof {
        assert(forall|j: int|
            0 <= j && j + 5 <= b@.len() ==> #[trigger] b@.subrange(j, j + 5) != lit_bytes(
                "Audio"@,
            ));
    }
    false
}

/// The decode results of one matching entry's array, in element order.
pub open spec fn entry_items(d: Seq<u8>) -> Seq<Result<SpecStream, SpecDecodeError>> {
    array_spans(d).map(|i: int, el: Seq<u8>| spec_decode(el))
}

/// Every matching entry can be read back and holds one well-formed array.
pub open spec fn scan_ok(names: Seq<Seq<char>>, data: Seq<Option<Seq<u8>>>) -> bool {
    forall|j: int|
        0 <= j < names.len() && name_matches(#[trigger] names[j]) ==> (data[j] is Some
            && array_error(data[j]->0) is None)
}

/// The items of the first `i` entries: for each matching entry its decode
/// results in element order, entries in archive order.
pub open spec fn scan_items_to(
    names: Seq<Seq<char>>,
    data: Seq<Option<Seq<u8>>>,
    i: int,
) -> Seq<Result<SpecStream, SpecDecodeError>>
    decreases i,
{
    if i <= 0 {
        Seq::empty()
    } else {
        scan_items_to(names, data, i - 1) + (if name_matches(names[i - 1]) {
            entry_items(data[i - 1]->0)
        } else {
            Seq::empty()
        })
    }
}

pub open spec fn item_view(r: Result<Stream, DecodeError>) -> Result<
    SpecStream,
    SpecDecodeError,
> {
    match r {
        Ok(s) => Ok(s@),
        Err(e) => Err(e@),
    }
}

pub open spec fn items_view(s: Seq<Result<Stream, DecodeError>>) -> Seq<
    Result<SpecStream, SpecDecodeError>,
> {
    Seq::new(s.len(), |i: int| item_view(s[i]))
}

/// Decodes one entry's content: the byte spans of the array's elements,
/// each put through the record decoder, in order.
#[verifier::rlimit(100)]
fn decode_entry(d: &Vec<u8>) -> (r: (Vec<Result<Stream, DecodeError>>, Option<MalformedJson>))
    ensures
        r.1 == array_error(d@),
        r.0@.len() == array_spans(d@).len(),
        forall|t: int|
            0 <= t < r.0@.len() ==> item_view(#[trigger] r.0@[t]) == spec_decode(
                array_spans(d@)[t],
            ),
{
    let (spans, err) = crate::json::split_delimited(d.as_slice(), 91, 93);
    let n = spans.len();
    let mut out: Vec<Result<Stream, DecodeError>> = Vec::new();
    let mut j: usize = 0;
    while j < n
        invariant
            j <= n,
            n == spans@.len(),
            spans.deep_view() == array_spans(d@),
            out@.len() == j,
            forall|t: int|
                0 <= t < j ==> item_view(#[trigger] out@[t]) == spec_decode(array_spans(d@)[t]),
        decreases n - j,
    {
        proof {
            assert(spans.deep_view()[j as int] =~= spans@[j as int]@);
        }
        let item = deserialize(spans[j].as_slice());
        out.push(item);
        j = j + 1;
    }
    (out, err)
}

/// Moves every item of `items` to the end of `out`, in order.
fn append_items(out: &mut Vec<Result<Stream, DecodeError>>, items: Vec<Result<Stream, DecodeError>>)
    ensures
        final(out)@ == old(out)@ + items@,
{
    let ghost orig = items@;
    let ghost base = out@;
    let mut items = items;
    while items.len() > 0
        invariant
            items@.len() <= orig.len(),
            items@ =~= orig.subrange(orig.len() - items@.len(), orig.len() as int),
            out@ =~= base + orig.subrange(0, orig.len() - items@.len()),
        decreases items@.len(),
    {
        let ghost items_pre = items@;
        let item = items.remove(0);
        proof {
            assert(item == orig[orig.len() - items_pre.len()]);
            assert(items@ =~= orig.subrange(orig.len() - items@.len(), orig.len() as int));
        }
        out.push(item);
        proof {
            assert(out@ =~= base + orig.subrange(0, orig.len() - items@.len()));
        }
    }
    proof {
        assert(orig.subrange(0, orig.len() as int) =~= orig);
        assert(out@ =~= base + orig);
    }
}

/// A matching entry the scan cannot get through: it cannot be read back,
/// or its content is not one well-formed JSON array.
pub open spec fn entry_bad(names: Seq<Seq<char>>, data: Seq<Option<Seq<u8>>>, j: int) -> bool {
    name_matches(names[j]) && (data[j] is None || array_error(data[j]->0) is Some)
}

/// The first bad matching entry at or after `i`, if any — the entry a
/// failing scan stops at.
pub open spec fn first_bad_entry_from(
    names: Seq<Seq<char>>,
    data: Seq<Option<Seq<u8>>>,
    i: int,
) -> Option<int>
    decreases names.len() - i when 0 <= i <= names.len()
{
    if i >= names.len() {
        None
    } else if entry_bad(names, data, i) {
        Some(i)
    } else {
        first_bad_entry_from(names, data, i + 1)
    }
}

/// Reads every matching entry of the zip archive held in `bytes` and
/// decodes its array of records, handing back every per-element result —
/// record or decode error — in archive-then-in-array order, together with
/// the scan's terminal status. Entries whose names do not match are never
/// opened. The status is `Ok` exactly when the bytes are a readable
/// archive whose matching entries can be read and hold well-formed
/// arrays, and then the items are complete; on a failure every element
/// completed before the failure point has still been delivered. Bytes
/// that are no archive give the `Io` or `Zip` error with no items; a
/// readable archive whose first bad matching entry is malformed gives
/// exactly that entry's `Malformed` error, after that entry's completed
/// elements.
#[verifier::rlimit(100)]
#[verifier::loop_isolation(false)]
pub fn read_zip(bytes: Vec<u8>) -> (r: (Vec<Result<Stream, DecodeError>>, Result<
    (),
    ReadZipError,
>))
    ensures
        ({
            let names = zip_entry_names(bytes@)->0;
            let data = zip_entry_data(bytes@);
            &&& (r.1 is Ok <==> (zip_entry_names(bytes@) is Some && scan_ok(names, data)))
            &&& (r.1 is Ok ==> items_view(r.0@) == scan_items_to(names, data, names.len() as int))
            &&& (r.1 is Err ==> (r.1->Err_0 is Io || r.1->Err_0 is Zip || r.1->Err_0
                is Malformed))
            &&& (zip_entry_names(bytes@) is None ==> (r.1 is Err && (r.1->Err_0 is Io
                || r.1->Err_0 is Zip) && r.0@.len() == 0))
            &&& ((zip_entry_names(bytes@) is Some && !scan_ok(names, data)) ==> ({
                let bad = first_bad_entry_from(names, data, 0);
                &&& bad is Some
                &&& (data[bad->0] is None ==> (r.1 is Err && (r.1->Err_0 is Io || r.1->Err_0
                    is Zip) && items_view(r.0@) == scan_items_to(names, data, bad->0)))
                &&& (data[bad->0] is Some ==> (r.1 == Err::<(), ReadZipError>(
                    ReadZipError::Malformed(array_error(data[bad->0]->0)->0),
                ) && items_view(r.0@) == scan_items_to(names, data, bad->0) + entry_items(
                    data[bad->0]->0,
                )))
            }))
        }),
{
    let ghost src = bytes@;
    let mut archive = match zip_open(bytes) {
        Ok(a) => a,
        Err(e) => {
            return (Vec::new(), Err(e));
        },
    };
    let ghost names = zip_entry_names(src)->0;
    let ghost data = zip_entry_data(src);
    let n = zip_len(&archive);
    let mut out: Vec<Result<Stream, DecodeError>> = Vec::new();
    let mut i: usize = 0;
    while i < n
        invariant
            i <= n,
            n == names.len(),
            data.len() == names.len(),
            archive_src(archive) == src,
            zip_entry_names(src) is Some,
            names == zip_entry_names(src)->0,
            data == zip_entry_data(src),
            items_view(out@) =~~= scan_items_to(names, data, i as int),
            first_bad_entry_from(names, data, 0) == first_bad_entry_from(names, data, i as int),
            forall|j: int|
                0 <= j < i && name_matches(#[trigger] names[j]) ==> (data[j] is Some
                    && array_error(data[j]->0) is None),
        decreases n - i,
    {
        let name = match zip_entry_name(&archive, i) {
            Some(s) => s,
            None => {
                return (out, Err(ReadZipError::Zip(String::new())));
            },
        };
        if matches_default(name.as_str()) {
            proof {
                assert(name_matches(names[i as int]));
            }
            let d = match zip_read_entry(&mut archive, i) {
                Ok(d) => d,
                Err(e) => {
                    proof {
                        assert(!(data[i as int] is Some));
                        assert(!scan_ok(names, data));
                        assert(entry_bad(names, data, i as int));
                        assert(first_bad_entry_from(names, data, 0) == Some(i as int));
                    }
                    return (out, Err(e));
                },
            };
            let (items, entry_err) = decode_entry(&d);
            let ghost eitems = entry_items(data[i as int]->0);
            let ghost out_pre = out@;
            let ghost items_in = items@;
            append_items(&mut out, items);
            proof {
                assert(items_in.len() == eitems.len());
                assert(out@ == out_pre + items_in);
                let next = scan_items_to(names, data, i as int + 1);
                assert(next == scan_items_to(names, data, i as int) + eitems);
                assert forall|idx: int| 0 <= idx < out@.len() implies items_view(out@)[idx]
                    == next[idx] by {
                    if idx < out_pre.len() {
                        assert(out@[idx] == out_pre[idx]);
                        assert(items_view(out_pre)[idx] == scan_items_to(
                            names,
                            data,
                            i as int,
                        )[idx]);
                    } else {
                        assert(out@[idx] == items_in[idx - out_pre.len()]);
                        assert(item_view(items_in[idx - out_pre.len()]) == eitems[idx
                            - out_pre.len()]);
                    }
                }
                assert(items_view(out@).len() == next.len());
            }
            match entry_err {
                Some(k) => {
                    proof {
                        assert(d@ == data[i as int]->0);
                        assert(array_error(data[i as int]->0) == Some(k));
                        assert(!scan_ok(names, data));
                        assert(entry_bad(names, data, i as int));
                        assert(first_bad_entry_from(names, data, 0) == Some(i as int));
                        assert(items_view(out@) =~~= scan_items_to(names, data, i as int)
                            + entry_items(data[i as int]->0));
                    }
                    return (out, Err(ReadZipError::Malformed(k)));
                },
                None => {
                    proof {
                        assert(array_error(data[i as int]->0) is None);
                        assert(items_view(out@) =~~= scan_items_to(names, data, i as int + 1));
                        assert(!entry_bad(names, data, i as int));
                    }
                },
            }
        } else {
            proof {
                assert(scan_items_to(names, data, i as int + 1) == scan_items_to(
                    names,
                    data,
                    i as int,
                ) + Seq::<Result<SpecStream, SpecDecodeError>>::empty());
                assert(items_view(out@) =~~= scan_items_to(names, data, i as int + 1));
                assert(!entry_bad(names, data, i as int));
            }
        }
        i = i + 1;
    }
    (out, Ok(()))
}

/// The first of the scan's items at or after `i` that is a decode error,
/// if any — the item a record collection stops at.
pub open spec fn first_bad_item_from(
    items: Seq<Result<SpecStream, SpecDecodeError>>,
    i: int,
) -> Option<int>
    decreases items.len() - i when 0 <= i <= items.len()
{
    if i >= items.len() {
        None
    } else if items[i] is Err {
        Some(i)
    } else {
        first_bad_item_from(items, i + 1)
    }
}

/// Reads the whole archive and collects the records themselves: succeeds
/// exactly when the scan succeeds and every element decodes, and then the
/// records are exactly the scan's items in order. The first element that
/// does not decode comes back as `Serde` of that element's error; a
/// failing scan fails as [`read_zip`] does, and no partial record list
/// reaches the caller.
#[verifier::rlimit(100)]
#[verifier::loop_isolation(false)]
pub fn read_zip_to_end(bytes: Vec<u8>) -> (r: Result<Vec<Stream>, ReadZipError>)
    ensures
        ({
            let names = zip_entry_names(bytes@)->0;
            let data = zip_entry_data(bytes@);
            let sitems = scan_items_to(names, data, names.len() as int);
            &&& r is Ok <==> (zip_entry_names(bytes@) is Some && scan_ok(names, data)
                && first_bad_item_from(sitems, 0) is None)
            &&& r is Ok ==> r->Ok_0@.map(|j: int, s: Stream| Ok::<SpecStream, SpecDecodeError>(s@))
                == sitems
            &&& (zip_entry_names(bytes@) is Some && scan_ok(names, data) && first_bad_item_from(
                sitems,
                0,
            ) is Some) ==> (r is Err && r->Err_0 is Serde && r->Err_0->Serde_0@ == sitems[
                first_bad_item_from(sitems, 0)->0
            ]->Err_0)
            &&& zip_entry_names(bytes@) is None ==> (r is Err && (r->Err_0 is Io || r->Err_0
                is Zip))
            &&& (zip_entry_names(bytes@) is Some && !scan_ok(names, data)) ==> ({
                let bad = first_bad_entry_from(names, data, 0);
                &&& bad is Some
                &&& (data[bad->0] is None ==> (r is Err && (r->Err_0 is Io || r->Err_0 is Zip)))
                &&& (data[bad->0] is Some ==> r == Err::<Vec<Stream>, ReadZipError>(
                    ReadZipError::Malformed(array_error(data[bad->0]->0)->0),
                ))
            })
        }),
{
    let ghost names = zip_entry_names(bytes@)->0;
    let ghost data = zip_entry_data(bytes@);
    let ghost sitems = scan_items_to(names, data, names.len() as int);
    let (mut items, status) = read_zip(bytes);
    match status {
        Ok(_) => {},
        Err(e) => {
            return Err(e);
        },
    }
    let ghost all = items_view(items@);
    proof {
        assert(all == sitems);
        assert(items@.len() == all.len());
    }
    let mut out: Vec<Stream> = Vec::new();
    while items.len() > 0
        invariant
            items@.len() <= all.len(),
            forall|u: int|
                0 <= u < items@.len() ==> item_view(#[trigger] items@[u]) == all[all.len()
                    - items@.len() + u],
            out@.map(|j: int, s: Stream| Ok::<SpecStream, SpecDecodeError>(s@)) =~~= all.subrange(
                0,
                all.len() - items@.len(),
            ),
            first_bad_item_from(all, 0) == first_bad_item_from(all, all.len() - items@.len()),
        decreases items@.len(),
    {
        let ghost done = all.len() - items@.len();
        let ghost items_pre = items@;
        let ghost out_pre = out@;
        let item = items.remove(0);
        proof {
            assert(item_view(item) == all[done as int]);
            assert forall|u: int| 0 <= u < items@.len() implies item_view(#[trigger] items@[u])
                == all[all.len() - items@.len() + u] by {
                assert(items@[u] == items_pre[u + 1]);
            }
        }
        match item {
            Ok(s) => {
                out.push(s);
                proof {
                    assert(all[done as int] is Ok);
                    let om = out@.map(|j: int, s: Stream| Ok::<SpecStream, SpecDecodeError>(s@));
                    assert forall|idx: int| 0 <= idx < out@.len() implies om[idx] == all.subrange(
                        0,
                        done + 1,
                    )[idx] by {
                        if idx < out_pre.len() {
                            assert(out@[idx] == out_pre[idx]);
                            assert(out_pre.map(
                                |j: int, s: Stream| Ok::<SpecStream, SpecDecodeError>(s@),
                            )[idx] == all.subrange(0, done as int)[idx]);
                        } else {
                            assert(out@[idx] == item->Ok_0);
                        }
                    }
                    assert(om =~~= all.subrange(0, done + 1));
                }
            },
            Err(e) => {
                proof {
                    assert(all[done as int] is Err);
                    assert(first_bad_item_from(all, done as int) == Some(done as int));
                    assert(e@ == all[done as int]->Err_0);
                }
                return Err(ReadZipError::Serde(e));
            },
        }
    }
    proof {
        assert(first_bad_item_from(all, all.len() as int) is None);
        assert(all.subrange(0, all.len() as int) =~= all);
    }
    Ok(out)
}

/// The number of items of the first `i` entries: the element counts of the
/// matching entries among them, summed.
pub open spec fn scan_item_count(names: Seq<Seq<char>>, data: Seq<Option<Seq<u8>>>, i: int) -> nat
    decreases i,
{
    if i <= 0 {
        0
    } else {
        scan_item_count(names, data, i - 1) + (if name_matches(names[i - 1]) {
            entry_items(data[i - 1]->0).len()
        } else {
            0
        })
    }
}

/// Law: a scan hands the caller exactly the sum of the element counts of
/// the matching entries — none omitted, none duplicated — and in order:
/// [`scan_items_to`], which [`read_zip`] returns on success, is the
/// concatenation of the matching entries' item runs in archive order.
pub proof fn lemma_scan_item_count(names: Seq<Seq<char>>, data: Seq<Option<Seq<u8>>>, i: int)
    ensures
        scan_items_to(names, data, i).len() == scan_item_count(names, data, i),
    decreases i,
{
    if i > 0 {
        lemma_scan_item_count(names, data, i - 1);
    }
}

/// Law: what a scan yields depends only on the content of the entries
/// whose names match the selection predicate. Two archives with the same
/// entry names whose matching entries agree scan to the same items, however
/// the non-matching entries differ: the scan never reads them.
pub proof fn lemma_non_matching_entries_unread(
    names: Seq<Seq<char>>,
    data: Seq<Option<Seq<u8>>>,
    data2: Seq<Option<Seq<u8>>>,
    i: int,
)
    requires
        forall|j: int|
            0 <= j < names.len() && name_matches(#[trigger] names[j]) ==> data[j] == data2[j],
        i <= names.len(),
    ensures
        scan_items_to(names, data, i) == scan_items_to(names, data2, i),
    decreases i,
{
    if i > 0 {
        lemma_non_matching_entries_unread(names, data, data2, i - 1);
    }
}

} // verus!
