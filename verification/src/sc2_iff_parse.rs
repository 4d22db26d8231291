//! Container framing and run-length codec for the IFF-style save file.

use vstd::prelude::*;
use vstd::slice::slice_to_vec;

use crate::sc_util;

verus! {

/// Meaning of one run-length encoded stream, read left to right.
///
/// A control byte `0x01..=0x7F` announces that many literal bytes (fewer if
/// the input ends early); a control byte `0x80..=0xFF` announces that the next
/// byte repeats `control - 0x7F` times; a control byte of zero announces
/// nothing.
pub open spec fn rle_decode(s: Seq<u8>) -> Seq<u8>
    decreases s.len(),
{
    if s.len() == 0 {
        Seq::empty()
    } else {
        let c = s[0];
        if c == 0 {
            rle_decode(s.skip(1))
        } else if c < 0x80 {
            let n = if c as int <= s.len() - 1 {
                c as int
            } else {
                s.len() - 1
            };
            s.subrange(1, 1 + n) + rle_decode(s.skip(1 + n))
        } else {
            if s.len() == 1 {
                Seq::empty()
            } else {
                Seq::new((c - 0x7f) as nat, |i: int| s[1]) + rle_decode(s.skip(2))
            }
        }
    }
}

/// Length of the maximal prefix of `s` whose bytes all equal `s[0]`.
pub open spec fn run_len(s: Seq<u8>) -> int
    decreases s.len(),
{
    if s.len() == 0 {
        0
    } else if s.len() == 1 {
        1
    } else if s[1] == s[0] {
        1 + run_len(s.skip(1))
    } else {
        1
    }
}

/// The leading run of `s`, capped at 128 so that it fits one repeat block.
pub open spec fn capped_run(s: Seq<u8>) -> int {
    if run_len(s) > 128 {
        128
    } else {
        run_len(s)
    }
}

/// The run-length encoding this crate produces: each maximal run of equal
/// bytes (capped at 128) becomes one repeat block `[0x7F + run, byte]`.
pub open spec fn rle_encode(s: Seq<u8>) -> Seq<u8>
    decreases s.len(),
    via rle_encode_decreases
{
    if s.len() == 0 {
        Seq::empty()
    } else {
        seq![(0x7f + capped_run(s)) as u8, s[0]] + rle_encode(s.skip(capped_run(s)))
    }
}

#[via_fn]
proof fn rle_encode_decreases(s: Seq<u8>) {
    if s.len() > 0 {
        lemma_run_len_char(s);
    }
}

proof fn lemma_run_len_char(s: Seq<u8>)
    requires
        s.len() > 0,
    ensures
        1 <= run_len(s) <= s.len(),
        forall|i: int| 0 <= i < run_len(s) ==> #[trigger] s[i] == s[0],
        run_len(s) < s.len() ==> s[run_len(s)] != s[0],
    decreases s.len(),
{
    if s.len() == 1 {
    } else if s[1] == s[0] {
        lemma_run_len_char(s.skip(1));
        assert(forall|i: int| 0 <= i < run_len(s.skip(1)) ==> #[trigger] s.skip(1)[i] == s[1]);
        assert(forall|i: int| 1 <= i < run_len(s) ==> #[trigger] s[i] == s.skip(1)[i - 1]);
    }
}

/// The round trip law: decoding what `rle_encode` produced gives back the
/// original bytes, whatever they were.
pub proof fn lemma_rle_round_trip(s: Seq<u8>)
    ensures
        rle_decode(rle_encode(s)) == s,
    decreases s.len(),
{
    if s.len() == 0 {
        assert(rle_decode(rle_encode(s)) =~= s);
    } else {
        lemma_run_len_char(s);
        let r = capped_run(s);
        let e = rle_encode(s);
        assert(e == seq![(0x7f + r) as u8, s[0]] + rle_encode(s.skip(r)));
        assert(e[0] == (0x7f + r) as u8 && e[1] == s[0]);
        assert(e[0] >= 0x80);
        assert(e.skip(2) =~= rle_encode(s.skip(r)));
        lemma_rle_round_trip(s.skip(r));
        assert(rle_decode(e) == Seq::new((e[0] - 0x7f) as nat, |i: int| e[1]) + rle_decode(
            e.skip(2),
        ));
        assert(Seq::new((e[0] - 0x7f) as nat, |i: int| e[1]) =~= s.subrange(0, r));
        assert(s.subrange(0, r) + s.skip(r) =~= s);
    }
}

/// Uncompresses one run-length compressed chunk.
pub fn uncompress_rle(encoded_data: &[u8]) -> (decoded: Vec<u8>)
    ensures
        decoded@ == rle_decode(encoded_data@),
{
    let mut decoded_data: Vec<u8> = Vec::new();
    let n = encoded_data.len();
    let mut i: usize = 0;

    proof {
        assert(encoded_data@.skip(0) =~= encoded_data@);
        assert(decoded_data@ + rle_decode(encoded_data@) =~= rle_decode(encoded_data@));
    }
    while i < n
        invariant
            n == encoded_data@.len(),
            i <= n,
            rle_decode(encoded_data@) == decoded_data@ + rle_decode(encoded_data@.skip(i as int)),
        decreases n - i,
    {
        let c = encoded_data[i];
        let ghost rest = encoded_data@.skip(i as int);
        if c == 0 {
            proof {
                assert(rest.skip(1) =~= encoded_data@.skip(i + 1));
            }
            i = i + 1;
        } else if c < 0x80 {
            let count = if (c as usize) <= n - 1 - i {
                c as usize
            } else {
                n - 1 - i
            };
            proof {
                assert(rest.subrange(1, 1 + count) =~= encoded_data@.subrange(
                    i + 1,
                    i + 1 + count,
                ));
                assert(rest.skip(1 + count) =~= encoded_data@.skip(i + 1 + count));
            }
            let ghost before = decoded_data@;
            let mut j: usize = 0;
            while j < count
                invariant
                    n == encoded_data@.len(),
                    i + 1 + count <= n,
                    j <= count,
                    decoded_data@ == before + encoded_data@.subrange(i + 1, i + 1 + j),
                decreases count - j,
            {
                decoded_data.push(encoded_data[i + 1 + j]);
                j = j + 1;
                proof {
                    assert(decoded_data@ =~= before + encoded_data@.subrange(i + 1, i + 1 + j));
                }
            }
            i = i + 1 + count;
        } else {
            if i + 1 < n {
                let b = encoded_data[i + 1];
                let count = (c - 0x7f) as usize;
                let ghost before = decoded_data@;
                let mut j: usize = 0;
                while j < count
                    invariant
                        j <= count,
                        decoded_data@ == before + Seq::new(j as nat, |k: int| b),
                    decreases count - j,
                {
                    decoded_data.push(b);
                    j = j + 1;
                    proof {
                        assert(decoded_data@ =~= before + Seq::new(j as nat, |k: int| b));
                    }
                }
                proof {
                    assert(rest.skip(2) =~= encoded_data@.skip(i + 2));
                    assert(Seq::new(count as nat, |k: int| b) =~= Seq::new(
                        (rest[0] - 0x7f) as nat,
                        |k: int| rest[1],
                    ));
                }
                i = i + 2;
            } else {
                i = n;
            }
        }
    }
    proof {
        assert(encoded_data@.skip(n as int) =~= Seq::<u8>::empty());
    }
    decoded_data
}

/// Compresses bytes so that `uncompress_rle` gives them back: each maximal
/// run of equal bytes (capped at 128) becomes one repeat block.
pub fn compress_rle(data: &[u8]) -> (encoded: Vec<u8>)
    ensures
        encoded@ == rle_encode(data@),
{
    let mut encoded: Vec<u8> = Vec::new();
    let n = data.len();
    let mut i: usize = 0;

    proof {
        assert(data@.skip(0) =~= data@);
        assert(encoded@ + rle_encode(data@) =~= rle_encode(data@));
    }
    while i < n
        invariant
            n == data@.len(),
            i <= n,
            rle_encode(data@) == encoded@ + rle_encode(data@.skip(i as int)),
        decreases n - i,
    {
        let ghost rest = data@.skip(i as int);
        let b = data[i];
        let mut j: usize = i + 1;
        while j < n && j - i < 128 && data[j] == b
            invariant
                n == data@.len(),
                i < n,
                i < j <= n,
                j - i <= 128,
                b == data@[i as int],
                forall|m: int| i <= m < j ==> #[trigger] data@[m] == b,
            decreases n - j,
        {
            j = j + 1;
        }
        let r = j - i;
        proof {
            lemma_run_len_char(rest);
            assert(forall|m: int| 0 <= m < r ==> #[trigger] rest[m] == rest[0]);
            if j < n && r < 128 {
                assert(rest[r as int] != rest[0]);
                assert(run_len(rest) == r) by {
                    if run_len(rest) > r {
                        assert(rest[r as int] == rest[0]);
                    }
                    if run_len(rest) < r {
                        assert(rest[run_len(rest)] != rest[0]);
                        assert(rest[run_len(rest)] == rest[0]);
                    }
                }
                assert(capped_run(rest) == r);
            } else if r == 128 {
                assert(run_len(rest) >= r) by {
                    if run_len(rest) < r {
                        assert(rest[run_len(rest)] != rest[0]);
                        assert(rest[run_len(rest)] == rest[0]);
                    }
                }
                assert(capped_run(rest) == 128);
            } else {
                assert(r == rest.len());
                assert(run_len(rest) == r) by {
                    if run_len(rest) < r {
                        assert(rest[run_len(rest)] != rest[0]);
                        assert(rest[run_len(rest)] == rest[0]);
                    }
                }
                assert(capped_run(rest) == r);
            }
            assert(rle_encode(rest) == seq![(0x7f + r) as u8, rest[0]] + rle_encode(rest.skip(r as int)));
            assert(rest.skip(r as int) =~= data@.skip(i + r));
        }
        let ghost before = encoded@;
        encoded.push(0x7f + r as u8);
        encoded.push(b);
        proof {
            assert(encoded@ =~= before + seq![(0x7f + capped_run(rest)) as u8, rest[0]]);
        }
        i = j;
    }
    proof {
        assert(data@.skip(n as int) =~= Seq::<u8>::empty());
    }
    encoded
}


/// Four-character chunk and header tags, read as big-endian 32-bit values.
pub const TAG_TEXT: u32 = 0x54455854;
pub const TAG_FORM: u32 = 0x464F524D;
pub const TAG_SCDH: u32 = 0x53434448;
pub const TAG_MIFF: u32 = 0x4D494646;
pub const TAG_SC2K: u32 = 0x5343324B;

pub const TAG_CNAM: u32 = 0x434E414D;
pub const TAG_ALTM: u32 = 0x414C544D;
pub const TAG_SCEN: u32 = 0x5343454E;
pub const TAG_PICT: u32 = 0x50494354;
pub const TAG_TILE: u32 = 0x54494C45;
pub const TAG_MISC: u32 = 0x4D495343;
pub const TAG_XTER: u32 = 0x58544552;
pub const TAG_XBLD: u32 = 0x58424C44;
pub const TAG_XTRF: u32 = 0x58545246;
pub const TAG_XPLT: u32 = 0x58504C54;
pub const TAG_XVAL: u32 = 0x5856414C;
pub const TAG_XCRM: u32 = 0x5843524D;
pub const TAG_XZON: u32 = 0x585A4F4E;
pub const TAG_XUND: u32 = 0x58554E44;
pub const TAG_XTXT: u32 = 0x58545854;
pub const TAG_XBIT: u32 = 0x58424954;
pub const TAG_XPLC: u32 = 0x58504C43;
pub const TAG_XFIR: u32 = 0x58464952;
pub const TAG_XPOP: u32 = 0x58504F50;
pub const TAG_XROG: u32 = 0x58524F47;
pub const TAG_XLAB: u32 = 0x584C4142;
pub const TAG_XMIC: u32 = 0x584D4943;
pub const TAG_XTHG: u32 = 0x58544847;
pub const TAG_XGRP: u32 = 0x58475250;

/// Which of the two supported container kinds a file claims to be.
#[derive(Clone, Copy, Debug, PartialEq, Eq, Structural)]
pub enum FileKind {
    /// A city save file (FORM / SCDH).
    CitySave,
    /// A tile set file (MIFF / SC2K).
    TileSet,
}

/// The parsed outer header of a save file.
#[derive(Debug)]
pub struct Sc2FileHeader {
    pub type_id: u32,
    pub data_size: usize,
    pub file_type: u32,
    /// The city name recovered from the resource fork of a Mac save, if any.
    pub city_name: Option<Vec<u8>>,
}

/// The raw bytes of every chunk, one slot per recognized id, with repeated
/// TEXT chunks accumulated and unrecognized ids kept in a side table.
#[derive(Debug)]
pub struct ChunkList {
    pub text: Vec<Vec<u8>>,
    pub cnam: Vec<u8>,
    pub altm: Vec<u8>,
    pub scen: Vec<u8>,
    pub pict: Vec<u8>,
    pub tile: Vec<u8>,
    pub misc: Vec<u8>,
    pub xter: Vec<u8>,
    pub xbld: Vec<u8>,
    pub xtrf: Vec<u8>,
    pub xplt: Vec<u8>,
    pub xval: Vec<u8>,
    pub xcrm: Vec<u8>,
    pub xzon: Vec<u8>,
    pub xund: Vec<u8>,
    pub xtxt: Vec<u8>,
    pub xbit: Vec<u8>,
    pub xplc: Vec<u8>,
    pub xfir: Vec<u8>,
    pub xpop: Vec<u8>,
    pub xrog: Vec<u8>,
    pub xlab: Vec<u8>,
    pub xmic: Vec<u8>,
    pub xthg: Vec<u8>,
    pub xgrp: Vec<u8>,
    pub unknown: Vec<(u32, Vec<u8>)>,
}

/// True when the tag has a dedicated slot in the chunk list.
pub open spec fn is_recognized_tag(tag: u32) -> bool {

    tag == TAG_CNAM || tag == TAG_ALTM || tag == TAG_SCEN || tag == TAG_PICT || tag == TAG_TILE || tag == TAG_MISC || tag == TAG_XTER || tag == TAG_XBLD || tag == TAG_XTRF || tag == TAG_XPLT || tag == TAG_XVAL || tag == TAG_XCRM || tag == TAG_XZON || tag == TAG_XUND || tag == TAG_XTXT || tag == TAG_XBIT || tag == TAG_XPLC || tag == TAG_XFIR || tag == TAG_XPOP || tag == TAG_XROG || tag == TAG_XLAB || tag == TAG_XMIC || tag == TAG_XTHG || tag == TAG_XGRP
}

impl ChunkList {
    /// The side table as a sequence of tag and payload pairs.
    pub open spec fn unknown_view(&self) -> Seq<(u32, Seq<u8>)> {
        self.unknown@.map_values(|p: (u32, Vec<u8>)| (p.0, p.1@))
    }

    /// An empty chunk list, every slot empty.
    pub fn new() -> (r: Self)
        ensures
            r.text.deep_view() =~= Seq::<Seq<u8>>::empty(),
            r.unknown_view() =~= Seq::<(u32, Seq<u8>)>::empty(),
            r.cnam@ =~= Seq::<u8>::empty(),
            r.altm@ =~= Seq::<u8>::empty(),
            r.scen@ =~= Seq::<u8>::empty(),
            r.pict@ =~= Seq::<u8>::empty(),
            r.tile@ =~= Seq::<u8>::empty(),
            r.misc@ =~= Seq::<u8>::empty(),
            r.xter@ =~= Seq::<u8>::empty(),
            r.xbld@ =~= Seq::<u8>::empty(),
            r.xtrf@ =~= Seq::<u8>::empty(),
            r.xplt@ =~= Seq::<u8>::empty(),
            r.xval@ =~= Seq::<u8>::empty(),
            r.xcrm@ =~= Seq::<u8>::empty(),
            r.xzon@ =~= Seq::<u8>::empty(),
            r.xund@ =~= Seq::<u8>::empty(),
            r.xtxt@ =~= Seq::<u8>::empty(),
            r.xbit@ =~= Seq::<u8>::empty(),
            r.xplc@ =~= Seq::<u8>::empty(),
            r.xfir@ =~= Seq::<u8>::empty(),
            r.xpop@ =~= Seq::<u8>::empty(),
            r.xrog@ =~= Seq::<u8>::empty(),
            r.xlab@ =~= Seq::<u8>::empty(),
            r.xmic@ =~= Seq::<u8>::empty(),
            r.xthg@ =~= Seq::<u8>::empty(),
            r.xgrp@ =~= Seq::<u8>::empty(),
    {
        ChunkList {
            text: Vec::new(),
            cnam: Vec::new(),
            altm: Vec::new(),
            scen: Vec::new(),
            pict: Vec::new(),
            tile: Vec::new(),
            misc: Vec::new(),
            xter: Vec::new(),
            xbld: Vec::new(),
            xtrf: Vec::new(),
            xplt: Vec::new(),
            xval: Vec::new(),
            xcrm: Vec::new(),
            xzon: Vec::new(),
            xund: Vec::new(),
            xtxt: Vec::new(),
            xbit: Vec::new(),
            xplc: Vec::new(),
            xfir: Vec::new(),
            xpop: Vec::new(),
            xrog: Vec::new(),
            xlab: Vec::new(),
            xmic: Vec::new(),
            xthg: Vec::new(),
            xgrp: Vec::new(),
            unknown: Vec::new(),
        }
    }

    /// Stores one chunk under its id: a recognized id overwrites its slot, a
    /// TEXT id replaces the text list, any other id is appended to the side
    /// table (where the last entry for a tag is the one that counts).
    pub fn set(&mut self, id: u32, value: &[u8])
        ensures
            final(self).text.deep_view() == (if id == TAG_TEXT {
                seq![value@]
            } else {
                old(self).text.deep_view()
            }),
            final(self).unknown_view() == (if is_recognized_tag(id) || id == TAG_TEXT {
                old(self).unknown_view()
            } else {
                old(self).unknown_view().push((id, value@))
            }),
            final(self).cnam@ == (if id == TAG_CNAM {
                value@
            } else {
                old(self).cnam@
            }),
            final(self).altm@ == (if id == TAG_ALTM {
                value@
            } else {
                old(self).altm@
            }),
            final(self).scen@ == (if id == TAG_SCEN {
                value@
            } else {
                old(self).scen@
            }),
            final(self).pict@ == (if id == TAG_PICT {
                value@
            } else {
                old(self).pict@
            }),
            final(self).tile@ == (if id == TAG_TILE {
                value@
            } else {
                old(self).tile@
            }),
            final(self).misc@ == (if id == TAG_MISC {
                value@
            } else {
                old(self).misc@
            }),
            final(self).xter@ == (if id == TAG_XTER {
                value@
            } else {
                old(self).xter@
            }),
            final(self).xbld@ == (if id == TAG_XBLD {
                value@
            } else {
                old(self).xbld@
            }),
            final(self).xtrf@ == (if id == TAG_XTRF {
                value@
            } else {
                old(self).xtrf@
            }),
            final(self).xplt@ == (if id == TAG_XPLT {
                value@
            } else {
                old(self).xplt@
            }),
            final(self).xval@ == (if id == TAG_XVAL {
                value@
            } else {
                old(self).xval@
            }),
            final(self).xcrm@ == (if id == TAG_XCRM {
                value@
            } else {
                old(self).xcrm@
            }),
            final(self).xzon@ == (if id == TAG_XZON {
                value@
            } else {
                old(self).xzon@
            }),
            final(self).xund@ == (if id == TAG_XUND {
                value@
            } else {
                old(self).xund@
            }),
            final(self).xtxt@ == (if id == TAG_XTXT {
                value@
            } else {
                old(self).xtxt@
            }),
            final(self).xbit@ == (if id == TAG_XBIT {
                value@
            } else {
                old(self).xbit@
            }),
            final(self).xplc@ == (if id == TAG_XPLC {
                value@
            } else {
                old(self).xplc@
            }),
            final(self).xfir@ == (if id == TAG_XFIR {
                value@
            } else {
                old(self).xfir@
            }),
            final(self).xpop@ == (if id == TAG_XPOP {
                value@
            } else {
                old(self).xpop@
            }),
            final(self).xrog@ == (if id == TAG_XROG {
                value@
            } else {
                old(self).xrog@
            }),
            final(self).xlab@ == (if id == TAG_XLAB {
                value@
            } else {
                old(self).xlab@
            }),
            final(self).xmic@ == (if id == TAG_XMIC {
                value@
            } else {
                old(self).xmic@
            }),
            final(self).xthg@ == (if id == TAG_XTHG {
                value@
            } else {
                old(self).xthg@
            }),
            final(self).xgrp@ == (if id == TAG_XGRP {
                value@
            } else {
                old(self).xgrp@
            }),
    {
        if id == TAG_TEXT {
            let mut t: Vec<Vec<u8>> = Vec::new();
            t.push(slice_to_vec(value));
            self.text = t;
            proof {
                assert(self.text.deep_view() =~= seq![value@]) by {
                    assert(self.text.deep_view().len() == 1);
                    assert(self.text.deep_view()[0] == self.text@[0].deep_view());
                    assert(self.text@[0].deep_view() =~= value@);
                }
            }
        }
        else if id == TAG_CNAM {
            self.cnam = slice_to_vec(value);
        }
        else if id == TAG_ALTM {
            self.altm = slice_to_vec(value);
        }
        else if id == TAG_SCEN {
            self.scen = slice_to_vec(value);
        }
        else if id == TAG_PICT {
            self.pict = slice_to_vec(value);
        }
        else if id == TAG_TILE {
            self.tile = slice_to_vec(value);
        }
        else if id == TAG_MISC {
            self.misc = slice_to_vec(value);
        }
        else if id == TAG_XTER {
            self.xter = slice_to_vec(value);
        }
        else if id == TAG_XBLD {
            self.xbld = slice_to_vec(value);
        }
        else if id == TAG_XTRF {
            self.xtrf = slice_to_vec(value);
        }
        else if id == TAG_XPLT {
            self.xplt = slice_to_vec(value);
        }
        else if id == TAG_XVAL {
            self.xval = slice_to_vec(value);
        }
        else if id == TAG_XCRM {
            self.xcrm = slice_to_vec(value);
        }
        else if id == TAG_XZON {
            self.xzon = slice_to_vec(value);
        }
        else if id == TAG_XUND {
            self.xund = slice_to_vec(value);
        }
        else if id == TAG_XTXT {
            self.xtxt = slice_to_vec(value);
        }
        else if id == TAG_XBIT {
            self.xbit = slice_to_vec(value);
        }
        else if id == TAG_XPLC {
            self.xplc = slice_to_vec(value);
        }
        else if id == TAG_XFIR {
            self.xfir = slice_to_vec(value);
        }
        else if id == TAG_XPOP {
            self.xpop = slice_to_vec(value);
        }
        else if id == TAG_XROG {
            self.xrog = slice_to_vec(value);
        }
        else if id == TAG_XLAB {
            self.xlab = slice_to_vec(value);
        }
        else if id == TAG_XMIC {
            self.xmic = slice_to_vec(value);
        }
        else if id == TAG_XTHG {
            self.xthg = slice_to_vec(value);
        }
        else if id == TAG_XGRP {
            self.xgrp = slice_to_vec(value);
        }
        else {
            self.unknown.push((id, slice_to_vec(value)));
            proof {
                assert(self.unknown_view() =~= old(self).unknown_view().push((id, value@)));
            }
        }
    }

    pub fn text(&self) -> (r: &Vec<Vec<u8>>)
        ensures
            r.deep_view() == self.text.deep_view(),
    {
        &self.text
    }

    pub fn cnam(&self) -> (r: &Vec<u8>)
        ensures
            r@ == self.cnam@,
    {
        &self.cnam
    }

    pub fn altm(&self) -> (r: &Vec<u8>)
        ensures
            r@ == self.altm@,
    {
        &self.altm
    }

    pub fn scen(&self) -> (r: &Vec<u8>)
        ensures
            r@ == self.scen@,
    {
        &self.scen
    }

    pub fn pict(&self) -> (r: &Vec<u8>)
        ensures
            r@ == self.pict@,
    {
        &self.pict
    }

    pub fn tile(&self) -> (r: &Vec<u8>)
        ensures
            r@ == self.tile@,
    {
        &self.tile
    }

    pub fn misc(&self) -> (r: &Vec<u8>)
        ensures
            r@ == self.misc@,
    {
        &self.misc
    }

    pub fn xter(&self) -> (r: &Vec<u8>)
        ensures
            r@ == self.xter@,
    {
        &self.xter
    }

    pub fn xbld(&self) -> (r: &Vec<u8>)
        ensures
            r@ == self.xbld@,
    {
        &self.xbld
    }

    pub fn xtrf(&self) -> (r: &Vec<u8>)
        ensures
            r@ == self.xtrf@,
    {
        &self.xtrf
    }

    pub fn xplt(&self) -> (r: &Vec<u8>)
        ensures
            r@ == self.xplt@,
    {
        &self.xplt
    }

    pub fn xval(&self) -> (r: &Vec<u8>)
        ensures
            r@ == self.xval@,
    {
        &self.xval
    }

    pub fn xcrm(&self) -> (r: &Vec<u8>)
        ensures
            r@ == self.xcrm@,
    {
        &self.xcrm
    }

    pub fn xzon(&self) -> (r: &Vec<u8>)
        ensures
            r@ == self.xzon@,
    {
        &self.xzon
    }

    pub fn xund(&self) -> (r: &Vec<u8>)
        ensures
            r@ == self.xund@,
    {
        &self.xund
    }

    pub fn xtxt(&self) -> (r: &Vec<u8>)
        ensures
            r@ == self.xtxt@,
    {
        &self.xtxt
    }

    pub fn xbit(&self) -> (r: &Vec<u8>)
        ensures
            r@ == self.xbit@,
    {
        &self.xbit
    }

    pub fn xplc(&self) -> (r: &Vec<u8>)
        ensures
            r@ == self.xplc@,
    {
        &self.xplc
    }

    pub fn xfir(&self) -> (r: &Vec<u8>)
        ensures
            r@ == self.xfir@,
    {
        &self.xfir
    }

    pub fn xpop(&self) -> (r: &Vec<u8>)
        ensures
            r@ == self.xpop@,
    {
        &self.xpop
    }

    pub fn xrog(&self) -> (r: &Vec<u8>)
        ensures
            r@ == self.xrog@,
    {
        &self.xrog
    }

    pub fn xlab(&self) -> (r: &Vec<u8>)
        ensures
            r@ == self.xlab@,
    {
        &self.xlab
    }

    pub fn xmic(&self) -> (r: &Vec<u8>)
        ensures
            r@ == self.xmic@,
    {
        &self.xmic
    }

    pub fn xthg(&self) -> (r: &Vec<u8>)
        ensures
            r@ == self.xthg@,
    {
        &self.xthg
    }

    pub fn xgrp(&self) -> (r: &Vec<u8>)
        ensures
            r@ == self.xgrp@,
    {
        &self.xgrp
    }

}


/// The 32-bit big-endian value of the four bytes at `off` (the chunk tag).
pub open spec fn tag_at(s: Seq<u8>, off: int) -> int {
    sc_util::be32(s[off], s[off + 1], s[off + 2], s[off + 3])
}

/// The declared payload size of the chunk whose header starts at `off`.
pub open spec fn size_at(s: Seq<u8>, off: int) -> int {
    sc_util::be32(s[off + 4], s[off + 5], s[off + 6], s[off + 7])
}

/// The chunk sequence read from `s` starting at `off` while `remaining`
/// declared bytes are left: `None` when a chunk overruns the buffer or the
/// declared length.
pub open spec fn parse_chunks(s: Seq<u8>, off: int, remaining: int) -> Option<Seq<(int, Seq<u8>)>>
    decreases remaining,
{
    if remaining <= 0 {
        Some(Seq::empty())
    } else if off + 8 > s.len() {
        None
    } else {
        let size = size_at(s, off);
        if off + 8 + size > s.len() || size + 8 > remaining {
            None
        } else {
            match parse_chunks(s, off + 8 + size, remaining - size - 8) {
                Option::None => Option::None,
                Option::Some(rest) => Option::Some(
                    seq![(tag_at(s, off), s.subrange(off + 8, off + 8 + size))] + rest,
                ),
            }
        }
    }
}

/// The payload of the last chunk carrying `tag`, or `dflt` if none does.
pub open spec fn last_payload(cs: Seq<(int, Seq<u8>)>, tag: int, dflt: Seq<u8>) -> Seq<u8>
    decreases cs.len(),
{
    if cs.len() == 0 {
        dflt
    } else if cs.last().0 == tag {
        cs.last().1
    } else {
        last_payload(cs.drop_last(), tag, dflt)
    }
}

/// Whether some chunk carries `tag`.
pub open spec fn has_tag(cs: Seq<(int, Seq<u8>)>, tag: int) -> bool {
    exists|i: int| 0 <= i < cs.len() && cs[i].0 == tag
}

/// The payloads of every TEXT chunk, in file order.
pub open spec fn text_payloads(cs: Seq<(int, Seq<u8>)>) -> Seq<Seq<u8>>
    decreases cs.len(),
{
    if cs.len() == 0 {
        Seq::empty()
    } else if cs.last().0 == TAG_TEXT {
        text_payloads(cs.drop_last()).push(cs.last().1)
    } else {
        text_payloads(cs.drop_last())
    }
}

/// The payload stored in the side table for `tag`: the last entry wins.
pub open spec fn side_get(u: Seq<(u32, Seq<u8>)>, tag: u32) -> Option<Seq<u8>>
    decreases u.len(),
{
    if u.len() == 0 {
        Option::None
    } else if u.last().0 == tag {
        Option::Some(u.last().1)
    } else {
        side_get(u.drop_last(), tag)
    }
}

/// True when the file is a Mac save: the container tag is missing at the
/// start but present at offset 0x80.
pub open spec fn spec_mac_check(s: Seq<u8>) -> bool {
    s.len() >= 0x84 && tag_at(s, 0) != TAG_FORM && tag_at(s, 0x80) == TAG_FORM
}

/// The container length a Mac save declares at 0x84, plus the 8 header bytes.
pub open spec fn mac_reported(s: Seq<u8>) -> int {
    sc_util::be32_signed(s[0x84], s[0x85], s[0x86], s[0x87]) + 8
}

/// The length-prefixed city name stored at offset 1 of a Mac save,
/// length byte included.
pub open spec fn mac_name(s: Seq<u8>) -> Seq<u8> {
    s.subrange(1, 2 + s[1])
}

/// Whether the Mac normalization can be carried out without overrunning.
pub open spec fn spec_mac_fix_ok(s: Seq<u8>) -> bool {
    s.len() >= 0x88 && mac_reported(s) >= 0 && 0x80 + mac_reported(s) <= s.len() && 2 + s[1]
        <= s.len()
}

/// Either the file is not a Mac save, or its normalization succeeds.
pub open spec fn fixable(s: Seq<u8>) -> bool {
    !spec_mac_check(s) || spec_mac_fix_ok(s)
}

/// The bytes the container is actually read from: a Mac save is trimmed to
/// the declared length starting at 0x80, any other file is taken as it is.
pub open spec fn normalized(s: Seq<u8>) -> Seq<u8> {
    if spec_mac_check(s) {
        s.subrange(0x80, 0x80 + mac_reported(s))
    } else {
        s
    }
}

/// The container tag each file kind must open with.
pub open spec fn expected_form_tag(k: FileKind) -> u32 {
    if k is CitySave {
        TAG_FORM
    } else {
        TAG_MIFF
    }
}

/// The sub-type tag each file kind must carry.
pub open spec fn expected_file_type(k: FileKind) -> u32 {
    if k is CitySave {
        TAG_SCDH
    } else {
        TAG_SC2K
    }
}

/// The outer header is valid: the declared length matches the byte count and
/// both tags match the expected kind.
pub open spec fn header_ok(d: Seq<u8>, k: FileKind) -> bool {
    d.len() >= 12 && sc_util::be32_signed(d[4], d[5], d[6], d[7]) + 8 == d.len() && tag_at(d, 0)
        == expected_form_tag(k) && tag_at(d, 8) == expected_file_type(k)
}

/// The whole container parses: normalization, header and every chunk.
pub open spec fn container_ok(s: Seq<u8>, k: FileKind) -> bool {
    fixable(s) && header_ok(normalized(s), k) && parse_chunks(
        normalized(s),
        12,
        normalized(s).len() - 12,
    ) is Some
}

/// Which error a bad container is rejected with.
pub open spec fn container_error(s: Seq<u8>, k: FileKind) -> crate::errors::Sc2Error {
    if !fixable(s) {
        crate::errors::Sc2Error::TruncatedInput
    } else if normalized(s).len() < 12 {
        crate::errors::Sc2Error::TruncatedInput
    } else if !header_ok(normalized(s), k) {
        crate::errors::Sc2Error::FormatMismatch
    } else {
        crate::errors::Sc2Error::TruncatedInput
    }
}

/// Copies the byte range `[a, b)` of a slice into a fresh vector.
pub(crate) fn copy_range(s: &[u8], a: usize, b: usize) -> (r: Vec<u8>)
    requires
        a <= b <= s@.len(),
    ensures
        r@ == s@.subrange(a as int, b as int),
{
    let mut r: Vec<u8> = Vec::new();
    let mut i: usize = a;
    while i < b
        invariant
            a <= i <= b <= s@.len(),
            r@ == s@.subrange(a as int, i as int),
        decreases b - i,
    {
        r.push(s[i]);
        i = i + 1;
        proof {
            assert(r@ =~= s@.subrange(a as int, i as int));
        }
    }
    r
}

/// Reads the four bytes at `off` as a big-endian tag.
fn read_tag(s: &[u8], off: usize) -> (r: u32)
    requires
        off + 4 <= s@.len(),
    ensures
        r == tag_at(s@, off as int),
{
    let chunk = [s[off], s[off + 1], s[off + 2], s[off + 3]];
    sc_util::parse_uint32(&chunk)
}


/// Checks if this is a Mac save file: the container tag is absent at the
/// start of the file but present at offset 0x80.
pub fn mac_check(input_data: &[u8]) -> (r: bool)
    ensures
        r == spec_mac_check(input_data@),
{
    if input_data.len() < 0x84 {
        return false;
    }
    let header = read_tag(input_data, 0);
    let mac_form = read_tag(input_data, 0x80);
    header != TAG_FORM && mac_form == TAG_FORM
}

/// Normalizes a Mac save: drops the resource fork before 0x80, trims trailing
/// garbage past the declared length, and recovers the city name stored as a
/// length-prefixed string at offset 1.
pub fn mac_fix(input_data: &[u8]) -> (r: Result<(Vec<u8>, Vec<u8>), crate::errors::Sc2Error>)
    ensures
        r is Ok <==> spec_mac_fix_ok(input_data@),
        r is Ok ==> r.unwrap().0@ == input_data@.subrange(0x80, 0x80 + mac_reported(input_data@)),
        r is Ok ==> r.unwrap().1@ == mac_name(input_data@),
        r is Err ==> r.unwrap_err() == crate::errors::Sc2Error::TruncatedInput,
{
    if input_data.len() < 0x88 {
        return Err(crate::errors::Sc2Error::TruncatedInput);
    }
    let chunk = [input_data[0x84], input_data[0x85], input_data[0x86], input_data[0x87]];
    let declared = sc_util::parse_int32(&chunk);
    let reported_wide: i64 = declared as i64 + 8;
    if reported_wide < 0 {
        return Err(crate::errors::Sc2Error::TruncatedInput);
    }
    let reported = reported_wide as usize;
    if reported > input_data.len() - 0x80 {
        return Err(crate::errors::Sc2Error::TruncatedInput);
    }
    let name_len = input_data[1] as usize;
    if 2 + name_len > input_data.len() {
        return Err(crate::errors::Sc2Error::TruncatedInput);
    }
    let fixed = copy_range(input_data, 0x80, 0x80 + reported);
    let city_name = copy_range(input_data, 1, 2 + name_len);
    Ok((fixed, city_name))
}

/// Parses one chunk at `offset`: its tag, its declared payload size, and a
/// copy of its payload bytes.
pub fn get_chunk_from_offset(input_data: &[u8], offset: usize) -> (r: Result<
    (u32, usize, Vec<u8>),
    crate::errors::Sc2Error,
>)
    ensures
        r is Ok <==> offset + 8 <= input_data@.len() && offset + 8 + size_at(
            input_data@,
            offset as int,
        ) <= input_data@.len(),
        r is Ok ==> r.unwrap().0 == tag_at(input_data@, offset as int),
        r is Ok ==> r.unwrap().1 == size_at(input_data@, offset as int),
        r is Ok ==> r.unwrap().2@ == input_data@.subrange(
            offset + 8,
            offset + 8 + size_at(input_data@, offset as int),
        ),
        r is Err ==> r.unwrap_err() == crate::errors::Sc2Error::TruncatedInput,
{
    if input_data.len() < 8 || offset > input_data.len() - 8 {
        return Err(crate::errors::Sc2Error::TruncatedInput);
    }
    let chunk_id = read_tag(input_data, offset);
    let chunk = [input_data[offset + 4], input_data[offset + 5], input_data[offset + 6], input_data[offset + 7]];
    let chunk_size = sc_util::parse_uint32(&chunk) as usize;
    if chunk_size > input_data.len() - offset - 8 {
        return Err(crate::errors::Sc2Error::TruncatedInput);
    }
    let chunk_data = copy_range(input_data, offset + 8, offset + 8 + chunk_size);
    Ok((chunk_id, chunk_size, chunk_data))
}

/// Checks the outer header, normalizing a Mac save first; returns the parsed
/// header and the normalized container bytes.
pub fn check_file(input_data: &[u8], input_type: FileKind) -> (r: Result<
    (Sc2FileHeader, Vec<u8>),
    crate::errors::Sc2Error,
>)
    ensures
        r is Ok <==> fixable(input_data@) && header_ok(normalized(input_data@), input_type),
        r is Ok ==> r.unwrap().1@ == normalized(input_data@),
        r is Ok ==> r.unwrap().0.type_id == tag_at(normalized(input_data@), 0),
        r is Ok ==> r.unwrap().0.data_size == normalized(input_data@).len(),
        r is Ok ==> r.unwrap().0.file_type == tag_at(normalized(input_data@), 8),
        r is Ok ==> (spec_mac_check(input_data@) ==> r.unwrap().0.city_name is Some
            && r.unwrap().0.city_name.unwrap()@ == mac_name(input_data@)),
        r is Ok ==> (!spec_mac_check(input_data@) ==> r.unwrap().0.city_name is None),
        r is Err ==> !(fixable(input_data@) && header_ok(normalized(input_data@), input_type)),
        r is Err ==> r.unwrap_err() == (if !fixable(input_data@) || normalized(
            input_data@,
        ).len() < 12 {
            crate::errors::Sc2Error::TruncatedInput
        } else {
            crate::errors::Sc2Error::FormatMismatch
        }),
{
    let mut city_name: Option<Vec<u8>> = None;
    let is_mac = mac_check(input_data);
    let data: Vec<u8> = if is_mac {
        let (fixed, name) = match mac_fix(input_data) {
            Ok(pair) => pair,
            Err(e) => {
                return Err(e);
            },
        };
        city_name = Some(name);
        fixed
    } else {
        copy_range(input_data, 0, input_data.len())
    };
    proof {
        assert(data@ == normalized(input_data@));
    }

    if data.len() < 12 {
        return Err(crate::errors::Sc2Error::TruncatedInput);
    }
    let header = read_tag(data.as_slice(), 0);
    let chunk = [data[4], data[5], data[6], data[7]];
    let declared = sc_util::parse_int32(&chunk);
    let reported_wide: i64 = declared as i64 + 8;
    if reported_wide < 0 || reported_wide as u64 != data.len() as u64 {
        return Err(crate::errors::Sc2Error::FormatMismatch);
    }
    let file_type = read_tag(data.as_slice(), 8);

    let expected_header = match input_type {
        FileKind::CitySave => TAG_FORM,
        FileKind::TileSet => TAG_MIFF,
    };
    let expected_type = match input_type {
        FileKind::CitySave => TAG_SCDH,
        FileKind::TileSet => TAG_SC2K,
    };
    if header != expected_header {
        return Err(crate::errors::Sc2Error::FormatMismatch);
    }
    if file_type != expected_type {
        return Err(crate::errors::Sc2Error::FormatMismatch);
    }

    let data_size = data.len();
    Ok((
        Sc2FileHeader {
            type_id: header,
            data_size,
            file_type,
            city_name,
        },
        data,
    ))
}




/// The city name a chunk-less file starts from: the Mac resource-fork name
/// where there is one, empty otherwise.
pub open spec fn cnam_default(s: Seq<u8>) -> Seq<u8> {
    if spec_mac_check(s) {
        mac_name(s)
    } else {
        Seq::empty()
    }
}

/// `rest` with `done` prepended, when `rest` parsed at all.
pub open spec fn prepend_chunks(
    done: Seq<(int, Seq<u8>)>,
    rest: Option<Seq<(int, Seq<u8>)>>,
) -> Option<Seq<(int, Seq<u8>)>> {
    match rest {
        Option::None => Option::None,
        Option::Some(cs) => Option::Some(done + cs),
    }
}

/// Takes already uncompressed city data and converts it into chunks, one
/// slot per chunk id, after validating the outer header.
pub fn chunk_input_serial(input_file: &[u8], input_type: FileKind) -> (r: Result<
    ChunkList,
    crate::errors::Sc2Error,
>)
    ensures
        r is Ok <==> container_ok(input_file@, input_type),
        r is Err ==> r.unwrap_err() == container_error(input_file@, input_type),
        r is Ok ==> ({
            let cs = parse_chunks(
                normalized(input_file@),
                12,
                normalized(input_file@).len() - 12,
            ).unwrap();
            let cl = r.unwrap();
            &&& cl.cnam@ == last_payload(cs, TAG_CNAM as int, cnam_default(input_file@))
            &&& cl.altm@ == last_payload(cs, TAG_ALTM as int, Seq::empty())
            &&& cl.scen@ == last_payload(cs, TAG_SCEN as int, Seq::empty())
            &&& cl.pict@ == last_payload(cs, TAG_PICT as int, Seq::empty())
            &&& cl.tile@ == last_payload(cs, TAG_TILE as int, Seq::empty())
            &&& cl.misc@ == last_payload(cs, TAG_MISC as int, Seq::empty())
            &&& cl.xter@ == last_payload(cs, TAG_XTER as int, Seq::empty())
            &&& cl.xbld@ == last_payload(cs, TAG_XBLD as int, Seq::empty())
            &&& cl.xtrf@ == last_payload(cs, TAG_XTRF as int, Seq::empty())
            &&& cl.xplt@ == last_payload(cs, TAG_XPLT as int, Seq::empty())
            &&& cl.xval@ == last_payload(cs, TAG_XVAL as int, Seq::empty())
            &&& cl.xcrm@ == last_payload(cs, TAG_XCRM as int, Seq::empty())
            &&& cl.xzon@ == last_payload(cs, TAG_XZON as int, Seq::empty())
            &&& cl.xund@ == last_payload(cs, TAG_XUND as int, Seq::empty())
            &&& cl.xtxt@ == last_payload(cs, TAG_XTXT as int, Seq::empty())
            &&& cl.xbit@ == last_payload(cs, TAG_XBIT as int, Seq::empty())
            &&& cl.xplc@ == last_payload(cs, TAG_XPLC as int, Seq::empty())
            &&& cl.xfir@ == last_payload(cs, TAG_XFIR as int, Seq::empty())
            &&& cl.xpop@ == last_payload(cs, TAG_XPOP as int, Seq::empty())
            &&& cl.xrog@ == last_payload(cs, TAG_XROG as int, Seq::empty())
            &&& cl.xlab@ == last_payload(cs, TAG_XLAB as int, Seq::empty())
            &&& cl.xmic@ == last_payload(cs, TAG_XMIC as int, Seq::empty())
            &&& cl.xthg@ == last_payload(cs, TAG_XTHG as int, Seq::empty())
            &&& cl.xgrp@ == last_payload(cs, TAG_XGRP as int, Seq::empty())
            &&& cl.text.deep_view() == text_payloads(cs)
            &&& forall|t: u32|
                !is_recognized_tag(t) && t != TAG_TEXT ==> side_get(cl.unknown_view(), t) == (
                if has_tag(cs, t as int) {
                    Option::Some(last_payload(cs, t as int, Seq::empty()))
                } else {
                    Option::None::<Seq<u8>>
                })
        }),
{
    let (header, data) = match check_file(input_file, input_type) {
        Ok(pair) => pair,
        Err(e) => {
            return Err(e);
        },
    };
    let mut output_dict = ChunkList::new();
    match header.city_name {
        Some(name) => {
            output_dict.cnam = name;
        },
        None => {},
    }

    let file_length = header.data_size;
    let mut remaining_length = file_length - 12;
    let ghost total = parse_chunks(data@, 12, data@.len() - 12);
    let ghost mut done: Seq<(int, Seq<u8>)> = Seq::empty();

    proof {
        assert(data@.len() == file_length);
        match total {
            Option::None => {},
            Option::Some(cs) => {
                assert(done + cs =~= cs);
            },
        }
    }

    while remaining_length > 0
        invariant
            data@ == normalized(input_file@),
            fixable(input_file@),
            header_ok(normalized(input_file@), input_type),
            file_length == data@.len(),
            file_length >= 12,
            remaining_length + 12 <= file_length,
            total == parse_chunks(data@, 12, data@.len() - 12),
            prepend_chunks(
                done,
                parse_chunks(data@, file_length - remaining_length, remaining_length as int),
            ) == total,
            output_dict.cnam@ == last_payload(done, TAG_CNAM as int, cnam_default(input_file@)),
            output_dict.altm@ == last_payload(done, TAG_ALTM as int, Seq::empty()),
            output_dict.scen@ == last_payload(done, TAG_SCEN as int, Seq::empty()),
            output_dict.pict@ == last_payload(done, TAG_PICT as int, Seq::empty()),
            output_dict.tile@ == last_payload(done, TAG_TILE as int, Seq::empty()),
            output_dict.misc@ == last_payload(done, TAG_MISC as int, Seq::empty()),
            output_dict.xter@ == last_payload(done, TAG_XTER as int, Seq::empty()),
            output_dict.xbld@ == last_payload(done, TAG_XBLD as int, Seq::empty()),
            output_dict.xtrf@ == last_payload(done, TAG_XTRF as int, Seq::empty()),
            output_dict.xplt@ == last_payload(done, TAG_XPLT as int, Seq::empty()),
            output_dict.xval@ == last_payload(done, TAG_XVAL as int, Seq::empty()),
            output_dict.xcrm@ == last_payload(done, TAG_XCRM as int, Seq::empty()),
            output_dict.xzon@ == last_payload(done, TAG_XZON as int, Seq::empty()),
            output_dict.xund@ == last_payload(done, TAG_XUND as int, Seq::empty()),
            output_dict.xtxt@ == last_payload(done, TAG_XTXT as int, Seq::empty()),
            output_dict.xbit@ == last_payload(done, TAG_XBIT as int, Seq::empty()),
            output_dict.xplc@ == last_payload(done, TAG_XPLC as int, Seq::empty()),
            output_dict.xfir@ == last_payload(done, TAG_XFIR as int, Seq::empty()),
            output_dict.xpop@ == last_payload(done, TAG_XPOP as int, Seq::empty()),
            output_dict.xrog@ == last_payload(done, TAG_XROG as int, Seq::empty()),
            output_dict.xlab@ == last_payload(done, TAG_XLAB as int, Seq::empty()),
            output_dict.xmic@ == last_payload(done, TAG_XMIC as int, Seq::empty()),
            output_dict.xthg@ == last_payload(done, TAG_XTHG as int, Seq::empty()),
            output_dict.xgrp@ == last_payload(done, TAG_XGRP as int, Seq::empty()),
            output_dict.text.deep_view() == text_payloads(done),
            forall|t: u32|
                !is_recognized_tag(t) && t != TAG_TEXT ==> side_get(
                    output_dict.unknown_view(),
                    t,
                ) == (if has_tag(done, t as int) {
                    Option::Some(last_payload(done, t as int, Seq::empty()))
                } else {
                    Option::None::<Seq<u8>>
                }),
        decreases remaining_length,
    {
        let offset = file_length - remaining_length;
        let (chunk_id, chunk_size, chunk_data) = match get_chunk_from_offset(
            data.as_slice(),
            offset,
        ) {
            Ok(triple) => triple,
            Err(e) => {
                proof {
                    assert(parse_chunks(data@, offset as int, remaining_length as int) is None);
                }
                return Err(e);
            },
        };
        if chunk_size + 8 > remaining_length {
            proof {
                assert(parse_chunks(data@, offset as int, remaining_length as int) is None);
            }
            return Err(crate::errors::Sc2Error::TruncatedInput);
        }

        let ghost chunk: (int, Seq<u8>) = (chunk_id as int, chunk_data@);
        let ghost pre_text = output_dict.text.deep_view();
        let ghost pre_unknown = output_dict.unknown_view();
        proof {
            assert(parse_chunks(data@, offset as int, remaining_length as int) == (
            match parse_chunks(
                data@,
                offset + 8 + chunk_size,
                remaining_length - chunk_size - 8,
            ) {
                Option::None => Option::None::<Seq<(int, Seq<u8>)>>,
                Option::Some(rest) => Option::Some(seq![chunk] + rest),
            }));
        }

        if chunk_id == TAG_TEXT {
            output_dict.text.push(chunk_data);
            proof {
                assert(output_dict.text.deep_view() =~~= pre_text.push(chunk.1));
            }
        } else {
            output_dict.set(chunk_id, chunk_data.as_slice());
        }

        proof {
            let done2 = done.push(chunk);
            assert(done2.drop_last() =~= done);
            match parse_chunks(
                data@,
                offset + 8 + chunk_size,
                remaining_length - chunk_size - 8,
            ) {
                Option::None => {},
                Option::Some(rest) => {
                    assert(done + (seq![chunk] + rest) =~= done2 + rest);
                },
            }
            assert forall|t: u32| !is_recognized_tag(t) && t != TAG_TEXT implies side_get(
                output_dict.unknown_view(),
                t,
            ) == (if has_tag(done2, t as int) {
                Option::Some(last_payload(done2, t as int, Seq::empty()))
            } else {
                Option::None::<Seq<u8>>
            }) by {
                let tt = t as int;
                if is_recognized_tag(chunk_id) || chunk_id == TAG_TEXT {
                    assert(output_dict.unknown_view() == pre_unknown);
                    assert(chunk.0 != tt);
                    assert(last_payload(done2, tt, Seq::empty()) == last_payload(
                        done,
                        tt,
                        Seq::empty(),
                    ));
                    if has_tag(done2, tt) {
                        let i = choose|i: int| 0 <= i < done2.len() && done2[i].0 == tt;
                        assert(done2[i] == done[i]);
                        assert(has_tag(done, tt));
                    }
                    if has_tag(done, tt) {
                        let i = choose|i: int| 0 <= i < done.len() && done[i].0 == tt;
                        assert(done2[i].0 == tt);
                        assert(has_tag(done2, tt));
                    }
                } else {
                    assert(output_dict.unknown_view() == pre_unknown.push((chunk_id, chunk.1)));
                    assert(output_dict.unknown_view().drop_last() =~= pre_unknown);
                    if t == chunk_id {
                        assert(done2[done2.len() - 1].0 == tt);
                        assert(has_tag(done2, tt));
                        assert(side_get(output_dict.unknown_view(), t) == Option::Some(chunk.1));
                        assert(last_payload(done2, tt, Seq::empty()) == chunk.1);
                    } else {
                        assert(chunk.0 != tt);
                        assert(side_get(output_dict.unknown_view(), t) == side_get(pre_unknown, t));
                        assert(last_payload(done2, tt, Seq::empty()) == last_payload(
                            done,
                            tt,
                            Seq::empty(),
                        ));
                        if has_tag(done2, tt) {
                            let i = choose|i: int| 0 <= i < done2.len() && done2[i].0 == tt;
                            assert(done2[i] == done[i]);
                            assert(has_tag(done, tt));
                        }
                        if has_tag(done, tt) {
                            let i = choose|i: int| 0 <= i < done.len() && done[i].0 == tt;
                            assert(done2[i].0 == tt);
                            assert(has_tag(done2, tt));
                        }
                    }
                }
            }
        }
        proof {
            done = done.push(chunk);
        }
        remaining_length = remaining_length - (chunk_size + 8);
    }

    proof {
        assert(parse_chunks(data@, file_length - remaining_length, remaining_length as int)
            == Option::Some(Seq::<(int, Seq<u8>)>::empty()));
        assert(done + Seq::<(int, Seq<u8>)>::empty() =~= done);
    }
    Ok(output_dict)
}


/// The leading bytes of `b` up to (not including) the first zero byte.
pub open spec fn until_nul(b: Seq<u8>) -> Seq<u8>
    decreases b.len(),
{
    if b.len() == 0 || b[0] == 0 {
        Seq::empty()
    } else {
        seq![b[0]] + until_nul(b.skip(1))
    }
}

/// The city name recovered from a raw CNAM buffer: bytes 1..32 (or to the
/// end when shorter), up to the first zero byte, each byte one character.
pub open spec fn clean_name(b: Seq<u8>) -> Seq<char> {
    if b.len() <= 1 {
        Seq::empty()
    } else {
        until_nul(
            b.subrange(
                1,
                if b.len() < 32 {
                    b.len() as int
                } else {
                    32
                },
            ),
        ).map_values(|x: u8| x as char)
    }
}

proof fn lemma_until_nul_prefix(x: Seq<u8>, k: int)
    requires
        0 <= k <= x.len(),
        forall|m: int| 0 <= m < k ==> x[m] != 0,
        k == x.len() || x[k] == 0,
    ensures
        until_nul(x) == x.take(k),
    decreases k,
{
    if k == 0 {
        assert(x.take(0) =~= Seq::<u8>::empty());
    } else {
        assert(x[0] != 0);
        assert(forall|m: int| 0 <= m < k - 1 ==> #[trigger] x.skip(1)[m] == x[m + 1]);
        lemma_until_nul_prefix(x.skip(1), k - 1);
        assert(seq![x[0]] + x.skip(1).take(k - 1) =~= x.take(k));
    }
}

/// Gets the city's name from a CNAM buffer, dropping the length prefix and
/// any garbage after the first zero byte.
pub fn clean_city_name(dirty_name: &[u8]) -> (r: String)
    ensures
        r@ == clean_name(dirty_name@),
{
    let mut r = String::new();
    let n = dirty_name.len();
    if n <= 1 {
        return r;
    }
    let end = if n < 32 {
        n
    } else {
        32
    };
    let ghost x = dirty_name@.subrange(1, end as int);
    let mut i: usize = 1;
    while i < end && dirty_name[i] != 0
        invariant
            n == dirty_name@.len(),
            1 < end <= n,
            end == (if n < 32 {
                n as int
            } else {
                32
            }),
            1 <= i <= end,
            forall|m: int| 1 <= m < i ==> dirty_name@[m] != 0,
            r@ == dirty_name@.subrange(1, i as int).map_values(|c: u8| c as char),
        decreases end - i,
    {
        let b = dirty_name[i];
        sc_util::push_char(&mut r, b as char);
        i = i + 1;
        proof {
            assert(r@ =~= dirty_name@.subrange(1, i as int).map_values(|c: u8| c as char));
        }
    }
    proof {
        let k = i - 1;
        assert(forall|m: int| 0 <= m < k ==> #[trigger] x[m] == dirty_name@[m + 1]);
        assert(k == x.len() || x[k as int] == 0);
        lemma_until_nul_prefix(x, k as int);
        assert(x.take(k as int) =~= dirty_name@.subrange(1, i as int));
    }
    r
}

/// One side-table entry with its payload uncompressed.
pub open spec fn decode_pair(p: (u32, Seq<u8>)) -> (u32, Seq<u8>) {
    (p.0, rle_decode(p.1))
}

/// Every side-table entry with its payload uncompressed.
pub open spec fn decode_pairs(u: Seq<(u32, Seq<u8>)>) -> Seq<(u32, Seq<u8>)> {
    u.map_values(|p: (u32, Seq<u8>)| decode_pair(p))
}

/// Uncompresses a chunked save file: the per-tile planes, the parameter
/// block and the side table are run-length decoded; the city name, the
/// altitude map and the scenario chunks pass through unchanged. For a
/// city-kind input the decoded sizes must match their fixed expectations.
pub fn sc2_uncompress_input(input_file: ChunkList, input_type: FileKind) -> (r: Result<
    ChunkList,
    crate::errors::Sc2Error,
>)
    ensures
        input_type is TileSet ==> r is Ok,
        input_type is CitySave ==> (r is Ok <==> input_file.cnam@.len() == 32
            && input_file.altm@.len() == 32768 && rle_decode(input_file.misc@).len() == 4800
            && rle_decode(input_file.xter@).len() == 16384 && rle_decode(
            input_file.xbld@,
        ).len() == 16384),
        r is Err ==> r.unwrap_err() == crate::errors::Sc2Error::FormatMismatch,
        r is Ok ==> r.unwrap().misc@ == rle_decode(input_file.misc@),
        r is Ok ==> r.unwrap().xter@ == rle_decode(input_file.xter@),
        r is Ok ==> r.unwrap().xbld@ == rle_decode(input_file.xbld@),
        r is Ok ==> r.unwrap().xtrf@ == rle_decode(input_file.xtrf@),
        r is Ok ==> r.unwrap().xplt@ == rle_decode(input_file.xplt@),
        r is Ok ==> r.unwrap().xval@ == rle_decode(input_file.xval@),
        r is Ok ==> r.unwrap().xcrm@ == rle_decode(input_file.xcrm@),
        r is Ok ==> r.unwrap().xzon@ == rle_decode(input_file.xzon@),
        r is Ok ==> r.unwrap().xund@ == rle_decode(input_file.xund@),
        r is Ok ==> r.unwrap().xtxt@ == rle_decode(input_file.xtxt@),
        r is Ok ==> r.unwrap().xbit@ == rle_decode(input_file.xbit@),
        r is Ok ==> r.unwrap().xplc@ == rle_decode(input_file.xplc@),
        r is Ok ==> r.unwrap().xfir@ == rle_decode(input_file.xfir@),
        r is Ok ==> r.unwrap().xpop@ == rle_decode(input_file.xpop@),
        r is Ok ==> r.unwrap().xrog@ == rle_decode(input_file.xrog@),
        r is Ok ==> r.unwrap().xlab@ == rle_decode(input_file.xlab@),
        r is Ok ==> r.unwrap().xmic@ == rle_decode(input_file.xmic@),
        r is Ok ==> r.unwrap().xthg@ == rle_decode(input_file.xthg@),
        r is Ok ==> r.unwrap().xgrp@ == rle_decode(input_file.xgrp@),
        r is Ok ==> r.unwrap().unknown_view() == decode_pairs(input_file.unknown_view()),
        r is Ok && input_type is CitySave ==> r.unwrap().text.deep_view()
            == input_file.text.deep_view() && r.unwrap().cnam@ == input_file.cnam@
            && r.unwrap().altm@ == input_file.altm@ && r.unwrap().scen@ == input_file.scen@
            && r.unwrap().pict@ == input_file.pict@ && r.unwrap().tile@ == Seq::<u8>::empty(),
        r is Ok && input_type is TileSet ==> r.unwrap().tile@ == input_file.tile@
            && r.unwrap().text.deep_view() == Seq::<Seq<u8>>::empty() && r.unwrap().cnam@
            == Seq::<u8>::empty() && r.unwrap().altm@ == Seq::<u8>::empty() && r.unwrap().scen@
            == Seq::<u8>::empty() && r.unwrap().pict@ == Seq::<u8>::empty(),
{
    let mut out = ChunkList::new();

    let mut k: usize = 0;
    while k < input_file.unknown.len()
        invariant
            k <= input_file.unknown.len(),
            out.unknown_view() == decode_pairs(input_file.unknown_view().subrange(0, k as int)),
            out.text.deep_view() == Seq::<Seq<u8>>::empty(),
            out.cnam@ == Seq::<u8>::empty(),
            out.altm@ == Seq::<u8>::empty(),
            out.scen@ == Seq::<u8>::empty(),
            out.pict@ == Seq::<u8>::empty(),
            out.tile@ == Seq::<u8>::empty(),
        decreases input_file.unknown.len() - k,
    {
        let tag = input_file.unknown[k].0;
        let decoded = uncompress_rle(input_file.unknown[k].1.as_slice());
        let ghost pre = out.unknown_view();
        let ghost iv = input_file.unknown_view();
        let ghost dec = decoded@;
        out.unknown.push((tag, decoded));
        k = k + 1;
        proof {
            assert(out.unknown@.len() == pre.len() + 1);
            assert(pre.len() == k - 1);
            assert(out.unknown_view().len() == k);
            assert forall|m: int| 0 <= m < k implies out.unknown_view()[m] == #[trigger] decode_pairs(
                iv.subrange(0, k as int),
            )[m] by {
                assert(iv.subrange(0, k as int)[m] == iv[m]);
                assert(decode_pairs(iv.subrange(0, k as int))[m] == decode_pair(iv[m]));
                if m < k - 1 {
                    assert(out.unknown_view()[m] == pre[m]);
                    assert(iv.subrange(0, k - 1)[m] == iv[m]);
                    assert(pre[m] == decode_pair(iv[m]));
                } else {
                    assert(out.unknown@[m] == (tag, decoded));
                    assert(out.unknown_view()[m] == (tag, dec));
                    assert(iv[m] == (input_file.unknown@[m].0, input_file.unknown@[m].1@));
                }
            }
            assert(out.unknown_view() =~= decode_pairs(iv.subrange(0, k as int)));
        }
    }
    proof {
        assert(input_file.unknown_view().subrange(0, input_file.unknown_view().len() as int)
            =~~= input_file.unknown_view());
    }

    out.misc = uncompress_rle(input_file.misc.as_slice());
    out.xter = uncompress_rle(input_file.xter.as_slice());
    out.xbld = uncompress_rle(input_file.xbld.as_slice());
    out.xtrf = uncompress_rle(input_file.xtrf.as_slice());
    out.xplt = uncompress_rle(input_file.xplt.as_slice());
    out.xval = uncompress_rle(input_file.xval.as_slice());
    out.xcrm = uncompress_rle(input_file.xcrm.as_slice());
    out.xzon = uncompress_rle(input_file.xzon.as_slice());
    out.xund = uncompress_rle(input_file.xund.as_slice());
    out.xtxt = uncompress_rle(input_file.xtxt.as_slice());
    out.xbit = uncompress_rle(input_file.xbit.as_slice());
    out.xplc = uncompress_rle(input_file.xplc.as_slice());
    out.xfir = uncompress_rle(input_file.xfir.as_slice());
    out.xpop = uncompress_rle(input_file.xpop.as_slice());
    out.xrog = uncompress_rle(input_file.xrog.as_slice());
    out.xlab = uncompress_rle(input_file.xlab.as_slice());
    out.xmic = uncompress_rle(input_file.xmic.as_slice());
    out.xthg = uncompress_rle(input_file.xthg.as_slice());
    out.xgrp = uncompress_rle(input_file.xgrp.as_slice());

    match input_type {
        FileKind::CitySave => {
            out.text = input_file.text;
            out.cnam = input_file.cnam;
            out.altm = input_file.altm;
            out.scen = input_file.scen;
            out.pict = input_file.pict;

            if out.cnam.len() != 32 {
                return Err(crate::errors::Sc2Error::FormatMismatch);
            }
            if out.misc.len() != 4800 {
                return Err(crate::errors::Sc2Error::FormatMismatch);
            }
            if out.altm.len() != 32768 {
                return Err(crate::errors::Sc2Error::FormatMismatch);
            }
            if out.xter.len() != 16384 {
                return Err(crate::errors::Sc2Error::FormatMismatch);
            }
            if out.xbld.len() != 16384 {
                return Err(crate::errors::Sc2Error::FormatMismatch);
            }
            proof {
                assert(out.text.deep_view() == input_file.text.deep_view());
                assert(out.cnam@ == input_file.cnam@);
                assert(out.tile@ == Seq::<u8>::empty());
            }
        },
        FileKind::TileSet => {
            out.tile = input_file.tile;
            proof {
                assert(out.tile@ == input_file.tile@);
                assert(out.text.deep_view() == Seq::<Seq<u8>>::empty());
                assert(out.cnam@ == Seq::<u8>::empty());
                assert(out.pict@ == Seq::<u8>::empty());
            }
        },
    }
    Ok(out)
}

} // verus!
