//! The archive batch packer: filters a directory's entries to the eligible
//! image files, keeps the running write offset, and for each file derives the
//! re-encoded archive bytes and the index line recording them.
use crate::codec::{png_encodable, png_ends_ok, png_frames_accepted, png_parse_ok, transcode_png,
    transcode_viable, transcoded};
use crate::errors::PackError;
use crate::index::{line_spec, render_line, Entry};
use vstd::prelude::*;

verus! {

/// One directory entry handed to the packer: a file name and the file's bytes.
#[derive(Debug)]
pub struct SrcFile {
    pub name: Vec<u8>,
    pub data: Vec<u8>,
}

/// The canonical image extension: the four bytes of `.png`.
pub open spec fn png_ext() -> Seq<u8> {
    seq![46u8, 112u8, 110u8, 103u8]
}

/// Whether a file name is eligible for packing: it ends in `.png`
/// (case-sensitive) after a non-empty stem.
pub open spec fn eligible_name(name: Seq<u8>) -> bool {
    name.len() >= 5 && name.subrange(name.len() - 4, name.len() as int) == png_ext()
}

/// Decides eligibility of a file name.
pub fn is_eligible(name: &Vec<u8>) -> (r: bool)
    ensures
        r == eligible_name(name@),
{
    let l = name.len();
    if l < 5 {
        return false;
    }
    let r = name[l - 4] == 46u8 && name[l - 3] == 112u8 && name[l - 2] == 110u8 && name[l - 1]
        == 103u8;
    proof {
        let s = name@.subrange(name@.len() - 4, name@.len() as int);
        assert(s[0] == name@[l - 4] && s[1] == name@[l - 3] && s[2] == name@[l - 2] && s[3]
            == name@[l - 1]);
        if r {
            assert(s =~= png_ext());
        } else {
            assert(s != png_ext()) by {
                if s == png_ext() {
                    assert(s[0] == 46u8 && s[1] == 112u8 && s[2] == 110u8 && s[3] == 103u8);
                }
            }
        }
    }
    r
}

/// Copies a byte vector.
pub fn clone_bytes(v: &Vec<u8>) -> (r: Vec<u8>)
    ensures
        r@ == v@,
{
    let mut out: Vec<u8> = Vec::new();
    let n = v.len();
    for i in 0..n
        invariant
            n == v@.len(),
            out@ == v@.take(i as int),
    {
        let b = v[i];
        proof {
            assert(v@.take(i + 1) =~= v@.take(i as int).push(v@[i as int]));
        }
        out.push(b);
    }
    proof {
        assert(v@.take(n as int) =~= v@);
    }
    out
}

/// What packing one eligible file produces: the bytes to append to the
/// archive, the line to append to the index, and the entry both record.
#[derive(Debug)]
pub struct PackOutput {
    pub bytes: Vec<u8>,
    pub line: Vec<u8>,
    pub entry: Entry,
}

/// Which fault a single source's bytes can explain.
pub open spec fn err_matches(e: PackError, src: Seq<u8>) -> bool {
    match e {
        PackError::DecodeInit => !png_parse_ok(src),
        PackError::EncodeInit => png_parse_ok(src) && !png_encodable(src),
        PackError::FrameDecode => png_parse_ok(src) && png_encodable(src) && !png_ends_ok(src),
        PackError::FrameEncode => png_parse_ok(src) && png_encodable(src),
        PackError::EncodeFinalize => png_parse_ok(src) && png_encodable(src),
        PackError::OffsetOverflow => transcode_viable(src),
    }
}

/// Packs a single directory entry against the running offset: an ineligible
/// name is silently skipped; an eligible file is re-encoded, and the output
/// carries the archive bytes together with the index entry and its line.
/// Succeeds on every eligible file whose transcode runs to the end, whose
/// frames the encoder accepts, and whose stream fits under the offset limit.
pub fn pack_one(file: &SrcFile, offset: u64) -> (r: Result<Option<PackOutput>, PackError>)
    ensures
        (eligible_name(file.name@) && transcode_viable(file.data@) && png_frames_accepted(
            file.data@,
        ) && offset + transcoded(file.data@).len() <= u64::MAX) ==> (r matches Ok(Some(_))),
        match r {
            Ok(opt) => match opt {
                None => !eligible_name(file.name@),
                Some(out) => {
                    &&& eligible_name(file.name@)
                    &&& transcode_viable(file.data@)
                    &&& out.bytes@ == transcoded(file.data@)
                    &&& 0 < out.bytes@.len()
                    &&& offset + out.bytes@.len() <= u64::MAX
                    &&& out.entry.name@ == file.name@
                    &&& out.entry.offset == offset
                    &&& out.entry.size == out.bytes@.len()
                    &&& out.line@ == line_spec(file.name@, offset, out.entry.size)
                },
            },
            Err(e) => {
                &&& eligible_name(file.name@)
                &&& err_matches(e, file.data@)
                &&& (png_parse_ok(file.data@) && png_encodable(file.data@) && !png_ends_ok(
                    file.data@,
                ) && png_frames_accepted(file.data@) ==> e == PackError::FrameDecode)
                &&& (e == PackError::OffsetOverflow ==> offset + transcoded(file.data@).len()
                    > u64::MAX)
            },
        },
{
    if !is_eligible(&file.name) {
        return Ok(None);
    }
    let bytes = match transcode_png(&file.data) {
        Ok(b) => b,
        Err(e) => {
            return Err(e);
        },
    };
    let size = bytes.len() as u64;
    if u64::MAX - offset < size {
        return Err(PackError::OffsetOverflow);
    }
    let entry = Entry { name: clone_bytes(&file.name), offset, size };
    let line = render_line(&entry);
    Ok(Some(PackOutput { bytes, line, entry }))
}

/// The eligible files of a directory listing, in enumeration order.
pub open spec fn eligible_files(files: Seq<SrcFile>) -> Seq<SrcFile>
    decreases files.len(),
{
    if files.len() == 0 {
        Seq::empty()
    } else {
        let rest = eligible_files(files.drop_last());
        if eligible_name(files.last().name@) {
            rest.push(files.last())
        } else {
            rest
        }
    }
}

/// The archive bytes one run appends: the eligible files' re-encoded streams
/// back to back, with no padding or separator between them.
pub open spec fn archive_model(el: Seq<SrcFile>) -> Seq<u8>
    decreases el.len(),
{
    if el.len() == 0 {
        Seq::empty()
    } else {
        archive_model(el.drop_last()) + transcoded(el.last().data@)
    }
}

/// The running offset after packing the eligible files, starting from `start`.
pub open spec fn end_offset_model(el: Seq<SrcFile>, start: int) -> int
    decreases el.len(),
{
    if el.len() == 0 {
        start
    } else {
        end_offset_model(el.drop_last(), start) + transcoded(el.last().data@).len()
    }
}

/// The offset at which the `j`-th eligible file's stream begins.
pub open spec fn entry_offset(el: Seq<SrcFile>, start: int, j: int) -> int {
    end_offset_model(el.take(j), start)
}

/// The index lines one run appends, in pack order.
pub open spec fn index_model(el: Seq<SrcFile>, start: int) -> Seq<u8>
    decreases el.len(),
{
    if el.len() == 0 {
        Seq::empty()
    } else {
        index_model(el.drop_last(), start) + line_spec(
            el.last().name@,
            end_offset_model(el.drop_last(), start) as u64,
            transcoded(el.last().data@).len() as u64,
        )
    }
}

/// Whether every file of a run can be transcoded to the end.
pub open spec fn run_viable(el: Seq<SrcFile>) -> bool {
    forall|j: int| 0 <= j < el.len() ==> transcode_viable(#[trigger] el[j].data@)
}

/// Whether the encoder accepts every file of a run's frames.
pub open spec fn run_accepted(el: Seq<SrcFile>) -> bool {
    forall|j: int| 0 <= j < el.len() ==> png_frames_accepted(#[trigger] el[j].data@)
}

/// The eligible files of a listing's prefix are a prefix of the listing's
/// eligible files.
pub proof fn lemma_eligible_prefix(files: Seq<SrcFile>, i: int)
    requires
        0 <= i <= files.len(),
    ensures
        eligible_files(files.take(i)).len() <= eligible_files(files).len(),
        eligible_files(files.take(i)) == eligible_files(files).take(
            eligible_files(files.take(i)).len() as int,
        ),
    decreases files.len(),
{
    if i == files.len() {
        assert(files.take(i) =~= files);
        assert(eligible_files(files).take(eligible_files(files).len() as int) =~= eligible_files(
            files,
        ));
    } else {
        assert(files.drop_last().take(i) =~= files.take(i));
        lemma_eligible_prefix(files.drop_last(), i);
        let rest = eligible_files(files.drop_last());
        let k = eligible_files(files.take(i)).len();
        if eligible_name(files.last().name@) {
            assert(eligible_files(files) == rest.push(files.last()));
            assert(rest.push(files.last()).take(k as int) =~= rest.take(k as int));
        } else {
            assert(eligible_files(files) == rest);
        }
    }
}

/// What one whole run produced: the archive bytes and index lines to append,
/// the entries they record, and the offset where the next run would begin.
#[derive(Debug)]
pub struct PackRun {
    pub archive: Vec<u8>,
    pub index: Vec<u8>,
    pub entries: Vec<Entry>,
    pub end_offset: u64,
}

/// Packs a directory listing in enumeration order: skips ineligible entries,
/// re-encodes each eligible file at the running offset, and stops at the
/// first fault, which aborts the whole batch. Succeeds whenever every
/// eligible file transcodes to the end with its frames accepted and the
/// final offset fits the counter.
pub fn pack_batch(files: &Vec<SrcFile>, start: u64) -> (r: Result<PackRun, PackError>)
    ensures
        (run_viable(eligible_files(files@)) && run_accepted(eligible_files(files@))
            && end_offset_model(eligible_files(files@), start as int) <= u64::MAX) ==> r is Ok,
        match r {
            Ok(run) => {
                let el = eligible_files(files@);
                &&& run_viable(el)
                &&& run.entries@.len() == el.len()
                &&& forall|j: int|
                    0 <= j < el.len() ==> (#[trigger] run.entries@[j]).name@ == el[j].name@
                &&& forall|j: int|
                    0 <= j < el.len() ==> (#[trigger] run.entries@[j]).offset == entry_offset(
                        el,
                        start as int,
                        j,
                    )
                &&& forall|j: int|
                    0 <= j < el.len() ==> (#[trigger] run.entries@[j]).size == transcoded(
                        el[j].data@,
                    ).len() && 0 < run.entries@[j].size
                &&& forall|j: int|
                    0 <= j && j + 1 < el.len() ==> (#[trigger] run.entries@[j + 1]).offset
                        == run.entries@[j].offset + run.entries@[j].size && run.entries@[j].offset
                        < run.entries@[j + 1].offset
                &&& run.archive@ == archive_model(el)
                &&& run.index@ == index_model(el, start as int)
                &&& run.end_offset == end_offset_model(el, start as int)
            },
            Err(e) => exists|k: int|
                0 <= k < files@.len() && eligible_name(#[trigger] files@[k].name@) && err_matches(
                    e,
                    files@[k].data@,
                ) && run_viable(eligible_files(files@.take(k))) && (png_parse_ok(files@[k].data@)
                    && png_encodable(files@[k].data@) && !png_ends_ok(files@[k].data@)
                    && png_frames_accepted(files@[k].data@) ==> e == PackError::FrameDecode),
        },
{
    let mut archive: Vec<u8> = Vec::new();
    let mut index: Vec<u8> = Vec::new();
    let mut entries: Vec<Entry> = Vec::new();
    let mut offset: u64 = start;
    let n = files.len();
    for i in 0..n
        invariant
            n == files@.len(),
            ({
                let el = eligible_files(files@.take(i as int));
                &&& run_viable(el)
                &&& entries@.len() == el.len()
                &&& forall|j: int|
                    0 <= j < el.len() ==> (#[trigger] entries@[j]).name@ == el[j].name@
                &&& forall|j: int|
                    0 <= j < el.len() ==> (#[trigger] entries@[j]).offset == entry_offset(
                        el,
                        start as int,
                        j,
                    )
                &&& forall|j: int|
                    0 <= j < el.len() ==> (#[trigger] entries@[j]).size == transcoded(
                        el[j].data@,
                    ).len() && 0 < entries@[j].size
                &&& archive@ == archive_model(el)
                &&& index@ == index_model(el, start as int)
                &&& offset as int == end_offset_model(el, start as int)
            }),
    {
        let ghost elp = eligible_files(files@.take(i as int));
        proof {
            assert(files@.take(i + 1).drop_last() =~= files@.take(i as int));
            assert(files@.take(i + 1).last() == files@[i as int]);
        }
        match pack_one(&files[i], offset) {
            Ok(opt) => {
                match opt {
                    None => {
                        proof {
                            assert(eligible_files(files@.take(i + 1)) == elp);
                        }
                    },
                    Some(out) => {
                        let ghost eln = eligible_files(files@.take(i + 1));
                        proof {
                            assert(eln == elp.push(files@[i as int]));
                            assert(eln.drop_last() =~= elp);
                            assert(eln.last() == files@[i as int]);
                            assert forall|j: int| 0 <= j <= elp.len() implies eln.take(j)
                                == elp.take(j) by {
                                assert(eln.take(j) =~= elp.take(j));
                            }
                            assert(eln.take(elp.len() as int) =~= elp);
                        }
                        let PackOutput { bytes, line, entry } = out;
                        let mut bytes = bytes;
                        let mut line = line;
                        archive.append(&mut bytes);
                        index.append(&mut line);
                        let next = entry.offset + entry.size;
                        entries.push(entry);
                        offset = next;
                    },
                }
            },
            Err(e) => {
                proof {
                    assert(0 <= i < files@.len() && eligible_name(files@[i as int].name@)
                        && err_matches(e, files@[i as int].data@) && run_viable(elp) && (
                    png_parse_ok(files@[i as int].data@) && png_encodable(files@[i as int].data@)
                        && !png_ends_ok(files@[i as int].data@) && png_frames_accepted(
                        files@[i as int].data@,
                    ) ==> e == PackError::FrameDecode));
                    let elf = eligible_files(files@);
                    if run_viable(elf) && run_accepted(elf) && end_offset_model(elf, start as int)
                        <= u64::MAX {
                        let eln = eligible_files(files@.take(i + 1));
                        assert(eln == elp.push(files@[i as int]));
                        assert(eln.drop_last() =~= elp);
                        lemma_eligible_prefix(files@, i + 1);
                        let m = eln.len() as int;
                        assert(elf[m - 1] == eln.last());
                        assert(transcode_viable(files@[i as int].data@));
                        assert(png_frames_accepted(files@[i as int].data@));
                        lemma_prefix_mono(elf, start as int, m, elf.len() as int);
                        assert(elf.take(elf.len() as int) =~= elf);
                        assert(end_offset_model(eln, start as int) == offset + transcoded(
                            files@[i as int].data@,
                        ).len());
                        assert(offset + transcoded(files@[i as int].data@).len() <= u64::MAX);
                        assert(false);
                    }
                }
                return Err(e);
            },
        }
    }
    proof {
        assert(files@.take(n as int) =~= files@);
        let el = eligible_files(files@);
        assert forall|j: int| 0 <= j && j + 1 < el.len() implies (#[trigger] entries@[j + 1]).offset
            == entries@[j].offset + entries@[j].size && entries@[j].offset < entries@[j
            + 1].offset by {
            lemma_offsets_adjacent(el, start as int, j);
        }
    }
    Ok(PackRun { archive, index, entries, end_offset: offset })
}

/// The sum of the eligible files' re-encoded stream lengths.
pub open spec fn run_size(el: Seq<SrcFile>) -> int
    decreases el.len(),
{
    if el.len() == 0 {
        0
    } else {
        run_size(el.drop_last()) + transcoded(el.last().data@).len()
    }
}

/// Law: one run appends exactly the sum of its entries' sizes to the archive,
/// and leaves the running offset advanced by the same amount.
pub proof fn lemma_run_growth(el: Seq<SrcFile>, start: int)
    ensures
        archive_model(el).len() == run_size(el),
        end_offset_model(el, start) == start + run_size(el),
    decreases el.len(),
{
    if el.len() > 0 {
        lemma_run_growth(el.drop_last(), start);
    }
}

/// Law: in one run each entry begins exactly where the previous one ends, so
/// entries with non-empty streams have strictly increasing offsets in pack
/// order.
pub proof fn lemma_offsets_adjacent(el: Seq<SrcFile>, start: int, j: int)
    requires
        0 <= j,
        j + 1 <= el.len(),
    ensures
        entry_offset(el, start, j + 1) == entry_offset(el, start, j) + transcoded(
            el[j].data@,
        ).len(),
        transcoded(el[j].data@).len() > 0 ==> entry_offset(el, start, j) < entry_offset(
            el,
            start,
            j + 1,
        ),
{
    assert(el.take(j + 1).drop_last() =~= el.take(j));
    assert(el.take(j + 1).last() == el[j]);
}

/// Law: every entry of a run begins at or after the run's starting offset and
/// ends at or before the run's final offset.
pub proof fn lemma_entry_in_run(el: Seq<SrcFile>, start: int, j: int)
    requires
        0 <= j < el.len(),
    ensures
        start <= entry_offset(el, start, j),
        entry_offset(el, start, j) + transcoded(el[j].data@).len() <= end_offset_model(el, start),
{
    lemma_offsets_adjacent(el, start, j);
    lemma_prefix_within(el, start, j);
    lemma_prefix_within(el, start, j + 1);
}

/// The running offset after any prefix of a run lies between the run's start
/// and its final offset.
pub proof fn lemma_prefix_within(el: Seq<SrcFile>, start: int, j: int)
    requires
        0 <= j <= el.len(),
    ensures
        start <= end_offset_model(el.take(j), start) <= end_offset_model(el, start),
    decreases el.len(),
{
    if j == el.len() {
        assert(el.take(j) =~= el);
        lemma_start_le(el, start);
    } else {
        assert(el.drop_last().take(j) =~= el.take(j));
        lemma_prefix_within(el.drop_last(), start, j);
    }
}

/// The running offset never moves backwards over a run.
pub proof fn lemma_start_le(el: Seq<SrcFile>, start: int)
    ensures
        start <= end_offset_model(el, start),
    decreases el.len(),
{
    if el.len() > 0 {
        lemma_start_le(el.drop_last(), start);
    }
}

/// The running offset is monotone over a run's prefixes.
pub proof fn lemma_prefix_mono(el: Seq<SrcFile>, start: int, a: int, b: int)
    requires
        0 <= a <= b <= el.len(),
    ensures
        end_offset_model(el.take(a), start) <= end_offset_model(el.take(b), start),
    decreases b - a,
{
    if a < b {
        lemma_prefix_mono(el, start, a, b - 1);
        assert(el.take(b).drop_last() =~= el.take(b - 1));
    }
}

/// Law: within one run no two entries' byte ranges overlap: every earlier
/// entry's range ends at or before a later one's begins.
pub proof fn lemma_entries_disjoint(el: Seq<SrcFile>, start: int, i: int, j: int)
    requires
        0 <= i < j < el.len(),
    ensures
        entry_offset(el, start, i) + transcoded(el[i].data@).len() <= entry_offset(el, start, j),
{
    lemma_offsets_adjacent(el, start, i);
    lemma_prefix_mono(el, start, i + 1, j);
}

/// Law: a second run against the same base name, started at the first run's
/// final offset, appends a disjoint set of entries after the first run's:
/// every byte range of the first run ends at or before the boundary, and
/// every byte range of the second begins at or after it, so no entry of the
/// first run is overwritten.
pub proof fn lemma_second_run_disjoint(
    el1: Seq<SrcFile>,
    el2: Seq<SrcFile>,
    start: int,
    j1: int,
    j2: int,
)
    requires
        0 <= j1 < el1.len(),
        0 <= j2 < el2.len(),
    ensures
        ({
            let boundary = end_offset_model(el1, start);
            entry_offset(el1, start, j1) + transcoded(el1[j1].data@).len() <= boundary
                <= entry_offset(el2, boundary, j2)
        }),
{
    lemma_entry_in_run(el1, start, j1);
    lemma_entry_in_run(el2, end_offset_model(el1, start), j2);
}

/// Law: extracting the byte range `[offset - start, offset - start + size)`
/// from the bytes one run appended yields exactly that entry's re-encoded
/// stream.
pub proof fn lemma_extract_entry(el: Seq<SrcFile>, start: int, j: int)
    requires
        0 <= j < el.len(),
    ensures
        ({
            let lo = entry_offset(el, start, j) - start;
            archive_model(el).subrange(lo, lo + transcoded(el[j].data@).len()) == transcoded(
                el[j].data@,
            )
        }),
    decreases el.len(),
{
    lemma_run_growth(el.take(j), start);
    let lo = entry_offset(el, start, j) - start;
    let stream = transcoded(el[j].data@);
    if j == el.len() - 1 {
        assert(el.take(j) =~= el.drop_last());
        lemma_run_growth(el.drop_last(), start);
        assert(archive_model(el) == archive_model(el.drop_last()) + transcoded(el.last().data@));
        assert(archive_model(el).subrange(lo, lo + stream.len()) =~= stream);
    } else {
        assert(el.drop_last().take(j) =~= el.take(j));
        lemma_extract_entry(el.drop_last(), start, j);
        lemma_entry_in_run(el.drop_last(), start, j);
        lemma_run_growth(el.drop_last(), start);
        assert(archive_model(el) == archive_model(el.drop_last()) + transcoded(el.last().data@));
        assert(archive_model(el).subrange(lo, lo + stream.len()) =~= archive_model(
            el.drop_last(),
        ).subrange(lo, lo + stream.len()));
    }
}

} // verus!
