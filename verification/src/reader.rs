use vstd::prelude::*;

use vstd::arithmetic::div_mod::lemma_fundamental_div_mod;
use vstd::arithmetic::mul::lemma_mul_inequality;

use crate::bytes::copy_range;
use crate::cursor::ByteCursor;
use crate::error::LasError;
use crate::header::{parse_header, spec_parse_header, Header, HeaderModel};
use crate::laz::{decompress_chunk, find_laszip, find_laszip_vlr, is_laszip_vlr, laz_chunk_records,
    laz_chunk_table, parse_laz_info, read_chunk_table, spec_parse_laz_info};
use crate::point::{decode_record, decoded_point, Point};

verus! {

/// The byte offset at which chunk `c` starts, given the per-chunk byte
/// counts `t` and the position `base` where the first chunk starts.
pub open spec fn chunk_start_of(t: Seq<(u64, u64)>, c: int, base: int) -> int
    decreases c,
{
    if c <= 0 {
        base
    } else {
        chunk_start_of(t, c - 1, base) + t[c - 1].1
    }
}

/// Chunk start offsets never decrease along the table: every byte count
/// added is nonnegative.
proof fn lemma_chunk_start_monotone(t: Seq<(u64, u64)>, k: int, c: int, base: int)
    requires
        0 <= k <= c,
    ensures
        chunk_start_of(t, k, base) <= chunk_start_of(t, c, base),
    decreases c,
{
    if k < c {
        lemma_chunk_start_monotone(t, k, c - 1, base);
    }
}

/// A forward-only reader over one LAS or LAZ file held in memory.
///
/// The header is parsed once at open time and cached; points are decoded
/// lazily, one per `next` call, and never retained. The position advances
/// monotonically; once the declared point count is reached, `next` keeps
/// returning no point, whatever trailing bytes remain.
pub struct Dataset {
    pub header: Header,
    pub cursor: ByteCursor,
    pub points_read: u64,
    /// The laszip VLR payload; empty for uncompressed sources.
    pub vlr_data: Vec<u8>,
    /// Points per chunk, from the laszip VLR; 0 for uncompressed sources.
    pub chunk_size: u32,
    /// Whether `table` holds the file's chunk table.
    pub table_loaded: bool,
    /// Per-chunk (point count, compressed byte count).
    pub table: Vec<(u64, u64)>,
    /// Whether `chunk_buf` holds the decompressed chunk `chunk_index`.
    pub chunk_loaded: bool,
    pub chunk_index: u64,
    pub chunk_buf: Vec<u8>,
}

impl Dataset {
    /// The whole file.
    pub open spec fn file(self) -> Seq<u8> {
        self.cursor.data@
    }

    pub open spec fn rec_len(self) -> int {
        self.header@.point_record_length as int
    }

    pub open spec fn opd(self) -> int {
        self.header@.offset_to_point_data as int
    }

    pub open spec fn count(self) -> int {
        self.header@.number_of_points as int
    }

    pub open spec fn compressed(self) -> bool {
        self.header@.is_compressed
    }

    /// The file's chunk table, as the trusted reader names it: per-chunk
    /// (point count, byte count), or nothing when the table does not decode.
    pub open spec fn spec_table(self) -> Option<Seq<(u64, u64)>> {
        laz_chunk_table(self.file(), self.header@.offset_to_point_data as u64, self.vlr_data@)
    }

    /// How many points chunk `c` holds: the chunk size, except that the
    /// last chunk holds whatever remains of the declared count.
    pub open spec fn points_in_chunk(self, c: int) -> int {
        if self.count() - c * (self.chunk_size as int) < self.chunk_size as int {
            self.count() - c * (self.chunk_size as int)
        } else {
            self.chunk_size as int
        }
    }

    /// The compressed bytes of chunk `c`: chunks follow each other from
    /// eight bytes past the point-data offset (those first eight bytes
    /// hold the chunk table's position).
    pub open spec fn chunk_bytes(self, c: int) -> Seq<u8> {
        let t = self.spec_table()->Some_0;
        let start = chunk_start_of(t, c, self.opd() + 8);
        self.file().subrange(start, start + t[c].1)
    }

    /// The raw bytes of record `i`, as the file determines them: a direct
    /// slice of the point data when uncompressed, a slice of its chunk's
    /// decompressed records when compressed.
    pub open spec fn spec_record(self, i: int) -> Seq<u8> {
        if !self.compressed() {
            self.file().subrange(self.opd() + i * self.rec_len(), self.opd() + (i + 1)
                * self.rec_len())
        } else {
            let c = i / (self.chunk_size as int);
            let j = i % (self.chunk_size as int);
            laz_chunk_records(
                self.vlr_data@,
                self.chunk_bytes(c),
                self.points_in_chunk(c) as nat,
                self.rec_len() as nat,
            )->Some_0.subrange(j * self.rec_len(), (j + 1) * self.rec_len())
        }
    }

    /// Everything the file must provide for chunk `c` to be read: a chunk
    /// table that decodes and covers `c`, chunk bytes that lie within the
    /// file, a decompressed size that a buffer can hold, and a chunk that
    /// the entropy decoder accepts.
    pub open spec fn chunk_available(self, c: int) -> bool {
        &&& self.spec_table() is Some
        &&& 0 <= c < self.spec_table()->Some_0.len()
        &&& chunk_start_of(self.spec_table()->Some_0, c, self.opd() + 8)
            + self.spec_table()->Some_0[c].1 <= self.file().len()
        &&& self.points_in_chunk(c) * self.rec_len() <= usize::MAX
        &&& laz_chunk_records(
            self.vlr_data@,
            self.chunk_bytes(c),
            self.points_in_chunk(c) as nat,
            self.rec_len() as nat,
        ) is Some
    }

    /// The reader's invariant: the cached header is what the file parses
    /// to, the cursor stands exactly at the next record of an uncompressed
    /// source, and whatever chunk state is loaded agrees with the file.
    pub open spec fn wf(self) -> bool {
        &&& spec_parse_header(self.file()) == Ok::<HeaderModel, LasError>(self.header@)
        &&& self.cursor.wf()
        &&& self.opd() <= self.file().len()
        &&& self.points_read <= self.header@.number_of_points
        &&& (!self.compressed() ==> self.cursor.pos == self.opd() + self.points_read
            * self.rec_len())
        &&& (self.compressed() ==> {
            &&& self.cursor.pos == self.opd()
            &&& spec_parse_laz_info(self.vlr_data@) is Ok
            &&& spec_parse_laz_info(self.vlr_data@)->Ok_0.chunk_size == self.chunk_size
            &&& spec_parse_laz_info(self.vlr_data@)->Ok_0.record_size
                == self.header@.point_record_length
            &&& exists|k: int|
                0 <= k < self.header@.vlrs.len() && is_laszip_vlr(#[trigger] self.header@.vlrs[k])
                    && self.header@.vlrs[k].data == self.vlr_data@
            &&& (self.table_loaded ==> Some(self.table@) == self.spec_table())
            &&& (self.chunk_loaded ==> {
                &&& self.table_loaded
                &&& self.chunk_index < self.table@.len()
                &&& 0 < self.points_in_chunk(self.chunk_index as int)
                &&& Some(self.chunk_buf@) == laz_chunk_records(
                    self.vlr_data@,
                    self.chunk_bytes(self.chunk_index as int),
                    self.points_in_chunk(self.chunk_index as int) as nat,
                    self.rec_len() as nat,
                )
                &&& self.chunk_buf@.len() == self.points_in_chunk(self.chunk_index as int)
                    * self.rec_len()
            })
        })
    }
}

/// What `Dataset::open` accepts: a file whose header parses, whose
/// point-data offset lies within the file, and which, when compressed,
/// carries a laszip VLR with supported compression parameters whose coder
/// items describe exactly one point record.
pub open spec fn spec_open(d: Seq<u8>) -> Result<HeaderModel, LasError> {
    match spec_parse_header(d) {
        Err(e) => Err(e),
        Ok(h) => if h.offset_to_point_data > d.len() {
            Err(
                LasError::TruncatedInput {
                    offset: 0,
                    needed: h.offset_to_point_data as usize,
                    available: d.len() as usize,
                },
            )
        } else if !h.is_compressed {
            Ok(h)
        } else {
            let k = find_laszip(h.vlrs, 0);
            if k < 0 {
                Err(LasError::InvalidHeader)
            } else {
                match spec_parse_laz_info(h.vlrs[k].data) {
                    Ok(info) => if info.record_size != h.point_record_length {
                        Err(LasError::InvalidHeader)
                    } else {
                        Ok(h)
                    },
                    Err(e) => Err(e),
                }
            }
        },
    }
}

impl Dataset {
    /// Opens a dataset over the bytes of one LAS or LAZ file.
    ///
    /// Succeeds exactly when [`spec_open`] does, caching the parsed
    /// header; the first error a scan of the file discovers otherwise.
    pub fn open(data: Vec<u8>) -> (r: Result<Dataset, LasError>)
        ensures
            r is Ok <==> spec_open(data@) is Ok,
            r matches Ok(ds) ==> ds.wf() && spec_open(data@) == Ok::<HeaderModel, LasError>(
                ds.header@,
            ) && ds.file() == data@ && ds.points_read == 0,
            r matches Err(e) ==> spec_open(data@) == Err::<HeaderModel, LasError>(e),
    {
        let h = match parse_header(&data) {
            Ok(h) => h,
            Err(e) => { return Err(e); },
        };
        let mut cursor = ByteCursor::new(data);
        let opd = h.offset_to_point_data as usize;
        match cursor.skip_to(opd) {
            Ok(()) => (),
            Err(e) => { return Err(e); },
        }
        if h.is_compressed {
            let idx = match find_laszip_vlr(&h.vlrs) {
                Some(i) => i,
                None => { return Err(LasError::InvalidHeader); },
            };
            proof {
                crate::laz::lemma_find_laszip_found(h@.vlrs, 0);
            }
            let n = h.vlrs[idx].data.len();
            let payload = copy_range(&h.vlrs[idx].data, 0, n);
            proof {
                assert(payload@ =~= h@.vlrs[idx as int].data);
            }
            let info = match parse_laz_info(&payload) {
                Ok(i) => i,
                Err(e) => { return Err(e); },
            };
            if info.record_size != h.point_record_length as u64 {
                return Err(LasError::InvalidHeader);
            }
            let ds = Dataset {
                header: h,
                cursor,
                points_read: 0,
                vlr_data: payload,
                chunk_size: info.chunk_size,
                table_loaded: false,
                table: Vec::new(),
                chunk_loaded: false,
                chunk_index: 0,
                chunk_buf: Vec::new(),
            };
            Ok(ds)
        } else {
            let ds = Dataset {
                header: h,
                cursor,
                points_read: 0,
                vlr_data: Vec::new(),
                chunk_size: 0,
                table_loaded: false,
                table: Vec::new(),
                chunk_loaded: false,
                chunk_index: 0,
                chunk_buf: Vec::new(),
            };
            Ok(ds)
        }
    }

    /// The cached header; never fails after a successful open, and always
    /// returns the same value.
    pub fn header(&self) -> (h: &Header)
        ensures
            h == &self.header,
    {
        &self.header
    }

    /// Loads and decompresses chunk `c` into the chunk buffer, reading the
    /// chunk table first if it has not been read yet.
    #[verifier::loop_isolation(false)]
    fn load_chunk(&mut self, c: u64) -> (r: Result<(), LasError>)
        requires
            old(self).wf(),
            old(self).compressed(),
            c * (old(self).chunk_size as int) < old(self).count(),
        ensures
            final(self).wf(),
            final(self).header == old(self).header,
            final(self).file() == old(self).file(),
            final(self).points_read == old(self).points_read,
            final(self).vlr_data@ == old(self).vlr_data@,
            final(self).chunk_size == old(self).chunk_size,
            r is Ok ==> final(self).chunk_loaded && final(self).chunk_index == c,
            r matches Err(e) ==> e is TruncatedInput || e is CorruptChunk || e is NotSupported,
            old(self).chunk_available(c as int) ==> r is Ok,
    {
        proof {
            lemma_mul_inequality(0, c as int, self.chunk_size as int);
        }
        if !self.table_loaded {
            let t = match read_chunk_table(
                &self.cursor.data,
                self.header.offset_to_point_data as u64,
                &self.vlr_data,
            ) {
                Some(t) => t,
                None => {
                    return Err(
                        LasError::CorruptChunk {
                            chunk_index: #[verifier::truncate] (c as usize),
                            expected: 0,
                            actual: 0,
                        },
                    );
                },
            };
            self.table = t;
            self.table_loaded = true;
        }
        if c >= self.table.len() as u64 {
            return Err(
                LasError::CorruptChunk {
                    chunk_index: #[verifier::truncate] (c as usize),
                    expected: 0,
                    actual: 0,
                },
            );
        }
        let c_us = c as usize;
        // Walk the table to the chunk's start offset; any chunk that
        // would begin or end past the file's end is a truncation.
        let file_len = self.cursor.data.len();
        let mut start: u128 = self.header.offset_to_point_data as u128 + 8;
        let mut k: usize = 0;
        if start > file_len as u128 {
            proof {
                if old(self).chunk_available(c as int) {
                    lemma_chunk_start_monotone(self.table@, 0, c as int, self.opd() + 8);
                }
            }
            return Err(
                LasError::TruncatedInput {
                    offset: file_len,
                    needed: 8,
                    available: 0,
                },
            );
        }
        while k < c_us
            invariant
                k <= c_us,
                c_us < self.table@.len(),
                start == chunk_start_of(self.table@, k as int, self.opd() + 8),
                start <= file_len as u128,
                file_len == self.file().len(),
            decreases c_us - k,
        {
            start = start + self.table[k].1 as u128;
            if start > file_len as u128 {
                proof {
                    if old(self).chunk_available(c as int) {
                        lemma_chunk_start_monotone(self.table@, k + 1, c as int, self.opd() + 8);
                    }
                }
                return Err(
                    LasError::TruncatedInput {
                        offset: file_len,
                        needed: #[verifier::truncate] ((start - file_len as u128) as usize),
                        available: 0,
                    },
                );
            }
            k = k + 1;
        }
        let bc = self.table[c_us].1;
        if bc as u128 > file_len as u128 - start {
            return Err(
                LasError::TruncatedInput {
                    offset: #[verifier::truncate] (start as usize),
                    needed: #[verifier::truncate] (bc as usize),
                    available: #[verifier::truncate] ((file_len as u128 - start) as usize),
                },
            );
        }
        let rem = self.header.number_of_points - c * self.chunk_size as u64;
        let n_points: u64 = if rem < self.chunk_size as u64 {
            rem
        } else {
            self.chunk_size as u64
        };
        let len = self.header.point_record_length as usize;
        proof {
            assert(self.points_in_chunk(c as int) == n_points);
            crate::header::lemma_parsed_header_well_formed(self.file());
        }
        proof {
            assert((n_points as int) * (len as int) < 0x1_0000_0000_0000_0000_0000_0000_0000_0000)
                by (nonlinear_arith)
                requires
                    (n_points as int) < 0x1_0000_0000_0000_0000,
                    (len as int) < 0x1_0000_0000_0000_0000,
            ;
        }
        if n_points as u128 * len as u128 > usize::MAX as u128 {
            return Err(LasError::NotSupported);
        }
        let chunk = copy_range(&self.cursor.data, start as usize, bc as usize);
        proof {
            assert(chunk@ == old(self).chunk_bytes(c as int));
        }
        let buf = match decompress_chunk(&self.vlr_data, &chunk, n_points as usize, len) {
            Some(b) => b,
            None => {
                return Err(
                    LasError::CorruptChunk {
                        chunk_index: c_us,
                        expected: n_points as usize * len,
                        actual: 0,
                    },
                );
            },
        };
        self.chunk_buf = buf;
        self.chunk_index = c;
        self.chunk_loaded = true;
        Ok(())
    }

    /// Advances by one record.
    ///
    /// Returns the next decoded point while points remain, and no point —
    /// idempotently, without error — once the declared count is reached.
    /// On an uncompressed source the call succeeds exactly when the file
    /// still holds the whole record, and fails with `TruncatedInput`
    /// otherwise. On a compressed source the call succeeds whenever the
    /// record's chunk is available — the chunk table decodes, the chunk
    /// lies within the file and the entropy decoder accepts it — and every
    /// point returned is the one its chunk decompresses to; a chunk that
    /// cannot be located or decompressed fails with `TruncatedInput`,
    /// `CorruptChunk` or `NotSupported`.
    pub fn next(&mut self) -> (r: Result<Option<Point>, LasError>)
        requires
            old(self).wf(),
        ensures
            final(self).wf(),
            final(self).header == old(self).header,
            final(self).file() == old(self).file(),
            final(self).vlr_data@ == old(self).vlr_data@,
            final(self).chunk_size == old(self).chunk_size,
            r matches Ok(p) ==> (p is Some <==> old(self).points_read < old(self).count()),
            old(self).points_read >= old(self).count() ==> r == Ok::<Option<Point>, LasError>(
                None,
            ),
            r matches Ok(Some(p)) ==> p == decoded_point(
                old(self).header@.point_format,
                old(self).spec_record(old(self).points_read as int),
            ) && final(self).points_read == old(self).points_read + 1,
            (r matches Ok(p) && p is None) ==> *final(self) == *old(self),
            r is Err ==> final(self).points_read == old(self).points_read,
            !old(self).compressed() && old(self).points_read < old(self).count() && old(self).opd()
                + (old(self).points_read + 1) * old(self).rec_len() <= old(self).file().len()
                ==> r is Ok,
            !old(self).compressed() && old(self).points_read < old(self).count() && old(self).opd()
                + (old(self).points_read + 1) * old(self).rec_len() > old(self).file().len() ==> (
            r matches Err(e) && e is TruncatedInput),
            old(self).compressed() && old(self).points_read < old(self).count() && old(
                self,
            ).chunk_available(
                old(self).points_read as int / (old(self).chunk_size as int),
            ) ==> r is Ok,
            old(self).compressed() && r is Err ==> (r matches Err(e) && (e is TruncatedInput
                || e is CorruptChunk || e is NotSupported)),
    {
        if self.points_read >= self.header.number_of_points {
            return Ok(None);
        }
        proof {
            crate::header::lemma_parsed_header_well_formed(self.file());
        }
        let ghost i_spec = self.points_read as int;
        let i = self.points_read;
        let len = self.header.point_record_length as usize;
        let fmt = self.header.point_format;
        let raw: Vec<u8>;
        if self.header.is_compressed {
            raw = match self.next_raw_compressed() {
                Ok(v) => v,
                Err(e) => { return Err(e); },
            };
        } else {
            proof {
                assert(self.opd() + i_spec * self.rec_len() + self.rec_len() == self.opd() + (
                i_spec + 1) * self.rec_len()) by (nonlinear_arith);
            }
            raw = match self.cursor.read_bytes(len) {
                Ok(v) => v,
                Err(e) => { return Err(e); },
            };
            proof {
                assert(raw@ =~= old(self).spec_record(i_spec));
            }
        }
        proof {
            assert(raw.len() == len);
            assert(fmt <= 10 && len >= crate::header::spec_min_record_len(fmt));
        }
        let p = match decode_record(fmt, &raw) {
            Ok(p) => p,
            Err(e) => { return Err(e); },
        };
        self.points_read = i + 1;
        Ok(Some(p))
    }

    /// Extracts the raw bytes of the next record of a compressed source,
    /// decompressing its chunk on demand.
    fn next_raw_compressed(&mut self) -> (r: Result<Vec<u8>, LasError>)
        requires
            old(self).wf(),
            old(self).compressed(),
            old(self).points_read < old(self).count(),
        ensures
            final(self).wf(),
            final(self).header == old(self).header,
            final(self).file() == old(self).file(),
            final(self).points_read == old(self).points_read,
            final(self).vlr_data@ == old(self).vlr_data@,
            final(self).chunk_size == old(self).chunk_size,
            r matches Ok(v) ==> v@ == old(self).spec_record(old(self).points_read as int) && v@.len()
                == old(self).rec_len(),
            old(self).chunk_available(
                old(self).points_read as int / (old(self).chunk_size as int),
            ) ==> r is Ok,
            r matches Err(e) ==> e is TruncatedInput || e is CorruptChunk || e is NotSupported,
    {
        let i = self.points_read;
        let ghost i_spec = i as int;
        let cs = self.chunk_size as u64;
        proof {
            assert(cs != 0);
        }
        let c = i / cs;
        let j = i % cs;
        proof {
            lemma_fundamental_div_mod(i as int, cs as int);
            lemma_mul_inequality(0, c as int, cs as int);
        }
        if !self.chunk_loaded || self.chunk_index != c {
            match self.load_chunk(c) {
                Ok(()) => (),
                Err(e) => { return Err(e); },
            }
        }
        let len = self.header.point_record_length as usize;
        let ghost n_c = self.points_in_chunk(c as int);
        proof {
            assert(c as int == i_spec / (cs as int) && j as int == i_spec % (cs as int));
            assert(j < n_c);
            lemma_mul_inequality(j as int + 1, n_c, len as int);
            assert((j as int + 1) * (len as int) == j as int * (len as int) + len as int)
                by (nonlinear_arith);
            assert(n_c * (len as int) == self.chunk_buf@.len());
            assert(self.chunk_buf.len() == self.chunk_buf@.len());
            assert(j as int * (len as int) + len as int <= self.chunk_buf@.len());
        }
        let off = (j as usize) * len;
        let raw = copy_range(&self.chunk_buf, off, len);
        proof {
            assert(raw@ =~= old(self).spec_record(i_spec));
        }
        Ok(raw)
    }

    /// Decodes every remaining point, draining the stream.
    ///
    /// Equivalent to calling `next` until no point remains; memory grows
    /// with the point count. On success the stream is exhausted and the
    /// result holds, in order, exactly the records the file determines.
    pub fn read_all(&mut self) -> (r: Result<Vec<Point>, LasError>)
        requires
            old(self).wf(),
        ensures
            final(self).wf(),
            final(self).header == old(self).header,
            final(self).file() == old(self).file(),
            r matches Ok(v) ==> final(self).points_read == old(self).count() && v@.len() == old(
                self,
            ).count() - old(self).points_read && forall|k: int|
                0 <= k < v@.len() ==> v@[k] == decoded_point(
                    old(self).header@.point_format,
                    old(self).spec_record(old(self).points_read + k),
                ),
            !old(self).compressed() ==> ((r is Err) <==> old(self).points_read < old(self).count()
                && old(self).opd() + old(self).count() * old(self).rec_len() > old(
                self,
            ).file().len()),
            (r is Err && !old(self).compressed()) ==> (r matches Err(e) && e is TruncatedInput),
            old(self).points_read >= old(self).count() ==> (r matches Ok(v) && v@.len() == 0),
            (r is Err && old(self).compressed()) ==> (r matches Err(e) && (e is TruncatedInput
                || e is CorruptChunk || e is NotSupported)),
    {
        let ghost start = self.points_read;
        let mut out: Vec<Point> = Vec::new();
        loop
            invariant
                self.wf(),
                self.header == old(self).header,
                self.file() == old(self).file(),
                self.vlr_data@ == old(self).vlr_data@,
                self.chunk_size == old(self).chunk_size,
                start == old(self).points_read,
                self.points_read == start + out@.len(),
                self.points_read <= self.count(),
                forall|k: int|
                    0 <= k < out@.len() ==> out@[k] == decoded_point(
                        old(self).header@.point_format,
                        old(self).spec_record(start + k),
                    ),
            decreases self.count() - self.points_read,
        {
            let ghost i = self.points_read as int;
            match self.next() {
                Ok(Some(p)) => {
                    out.push(p);
                },
                Ok(None) => {
                    return Ok(out);
                },
                Err(e) => {
                    proof {
                        if !self.compressed() {
                            lemma_mul_inequality(i + 1, self.count(), self.rec_len());
                        }
                    }
                    return Err(e);
                },
            }
        }
    }

    /// Returns the stream to its first point: the next `next` call decodes
    /// record 0 again. The header and the file are untouched.
    pub fn reset(&mut self)
        requires
            old(self).wf(),
        ensures
            final(self).wf(),
            final(self).header == old(self).header,
            final(self).file() == old(self).file(),
            final(self).vlr_data@ == old(self).vlr_data@,
            final(self).chunk_size == old(self).chunk_size,
            final(self).points_read == 0,
    {
        self.points_read = 0;
        self.cursor.pos = self.header.offset_to_point_data as usize;
        self.chunk_loaded = false;
    }
}

} // verus!
