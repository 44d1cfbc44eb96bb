//! One sequencing read: four verbatim FASTQ lines plus the two fields
//! derived from the header line (read id and tile id).

use vstd::prelude::*;
use vstd::string::StrSliceExecFns;
use vstd::string::StringExecFns;

use crate::text::chunk_readable_at;
use crate::text::first_space_at;
use crate::text::first_space_of;
use crate::text::has_space;
use crate::text::split_on;
use crate::text::str_views;
use crate::text::find_first_space;
use crate::text::split_colons;

verus! {

/// A header line that lacks a space, or has fewer than five colon-delimited
/// fields before its first space. Fatal: it aborts the whole run.
#[derive(Clone, Copy, Debug, PartialEq, Eq, Structural)]
pub struct HeaderFormatError;

/// The read id of a header line: its characters before the first space,
/// leading sigil included (meaningful only when the header has a space).
pub open spec fn spec_read_id(h: Seq<char>) -> Seq<char> {
    h.take(first_space_of(h))
}

/// The tile id of a header line: the fifth colon-delimited field of its
/// read id (meaningful only when `header_ok(h)` holds).
pub open spec fn spec_tile_id(h: Seq<char>) -> Seq<char> {
    split_on(spec_read_id(h), ':')[4]
}

/// A well-formed header: it has a space, and at least five colon-delimited
/// fields before it.
pub open spec fn header_ok(h: Seq<char>) -> bool {
    &&& has_space(h)
    &&& split_on(spec_read_id(h), ':').len() >= 5
}

/// One FASTQ record. The four line fields hold the lines exactly as they
/// were read from the input stream (trailing newline included, when one was
/// present); `read_id` and `tile_id` are derived from `id`.
pub struct FastqEntry {
    pub id: String,
    pub seq: String,
    pub strand: String,
    pub qual: String,
    pub tile_id: String,
    pub read_id: String,
}

impl FastqEntry {
    /// A record with every field empty.
    pub fn new() -> (e: FastqEntry)
        ensures
            e.id@ == Seq::<char>::empty(),
            e.seq@ == Seq::<char>::empty(),
            e.strand@ == Seq::<char>::empty(),
            e.qual@ == Seq::<char>::empty(),
            e.tile_id@ == Seq::<char>::empty(),
            e.read_id@ == Seq::<char>::empty(),
    {
        FastqEntry {
            id: String::new(),
            seq: String::new(),
            strand: String::new(),
            qual: String::new(),
            tile_id: String::new(),
            read_id: String::new(),
        }
    }

    /// Resets every field to the empty string.
    pub fn clear(&mut self)
        ensures
            final(self).id@ == Seq::<char>::empty(),
            final(self).seq@ == Seq::<char>::empty(),
            final(self).strand@ == Seq::<char>::empty(),
            final(self).qual@ == Seq::<char>::empty(),
            final(self).tile_id@ == Seq::<char>::empty(),
            final(self).read_id@ == Seq::<char>::empty(),
    {
        self.id = String::new();
        self.seq = String::new();
        self.strand = String::new();
        self.qual = String::new();
        self.tile_id = String::new();
        self.read_id = String::new();
    }

    /// A one-line description of the record, used for diagnostics.
    pub fn to_string(&self) -> (r: String)
        ensures
            r@ == "read: "@ + self.id@ + "seq: "@ + self.seq@ + "strand: "@ + self.strand@
                + "qual: "@ + self.qual@ + "tile: "@ + self.tile_id@,
    {
        let mut r = String::new();
        r.append("read: ");
        r.append(self.id.as_str());
        r.append("seq: ");
        r.append(self.seq.as_str());
        r.append("strand: ");
        r.append(self.strand.as_str());
        r.append("qual: ");
        r.append(self.qual.as_str());
        r.append("tile: ");
        r.append(self.tile_id.as_str());
        r
    }
}

/// Splits a header line into its read id and tile id, or reports that it is
/// malformed: no space, or fewer than five colon fields before the space.
pub fn parse_header(h: &str) -> (r: Result<(String, String), HeaderFormatError>)
    ensures
        r is Ok <==> header_ok(h@),
        (r matches Ok(p) ==> p.0@ == spec_read_id(h@) && p.1@ == spec_tile_id(h@)),
{
    match find_first_space(h) {
        None => Err(HeaderFormatError),
        Some(i) => {
            proof {
                assert(has_space(h@));
                let w = first_space_of(h@);
                assert(first_space_at(h@, w));
                assert(w == i as int) by {
                    if w < i as int {
                        assert(h@[w] != ' ');
                    }
                    if w > i as int {
                        assert(h@[i as int] != ' ');
                    }
                }
            }
            let read_id = h.substring_char(0, i).to_owned();
            proof {
                assert(read_id@ =~= spec_read_id(h@));
            }
            let fields = split_colons(read_id.as_str());
            if fields.len() >= 5 {
                let tile = fields[4].clone();
                proof {
                    assert(str_views(fields@)[4] == fields@[4]@);
                }
                Ok((read_id, tile))
            } else {
                Err(HeaderFormatError)
            }
        },
    }
}

/// Reads the record whose four lines start at `pos`, if one is there.
///
/// Fewer than four lines left, or an empty line among the four, means the
/// stream has ended: no record. A malformed header is a fatal error.
pub fn read_entry(lines: &Vec<String>, pos: usize) -> (r: Result<
    Option<FastqEntry>,
    HeaderFormatError,
>)
    ensures
        !chunk_readable_at(str_views(lines@), pos as int) ==> (r matches Ok(e) && e is None),
        chunk_readable_at(str_views(lines@), pos as int) && header_ok(lines@[pos as int]@) ==> (r
            matches Ok(oe) && oe matches Some(e) && e.id@ == lines@[pos as int]@ && e.seq@
            == lines@[pos as int + 1]@ && e.strand@ == lines@[pos as int + 2]@ && e.qual@
            == lines@[pos as int + 3]@ && e.read_id@ == spec_read_id(lines@[pos as int]@)
            && e.tile_id@ == spec_tile_id(lines@[pos as int]@)),
        chunk_readable_at(str_views(lines@), pos as int) && !header_ok(lines@[pos as int]@) ==> r
            is Err,
{
    let n = lines.len();
    if pos >= n || n - pos < 4 {
        return Ok(None);
    }
    if lines[pos].as_str().is_empty() || lines[pos + 1].as_str().is_empty() || lines[pos
        + 2].as_str().is_empty() || lines[pos + 3].as_str().is_empty() {
        return Ok(None);
    }
    assert(chunk_readable_at(str_views(lines@), pos as int));
    match parse_header(lines[pos].as_str()) {
        Err(e) => Err(e),
        Ok((read_id, tile_id)) => Ok(
            Some(
                FastqEntry {
                    id: lines[pos].clone(),
                    seq: lines[pos + 1].clone(),
                    strand: lines[pos + 2].clone(),
                    qual: lines[pos + 3].clone(),
                    tile_id,
                    read_id,
                },
            ),
        ),
    }
}

} // verus!
