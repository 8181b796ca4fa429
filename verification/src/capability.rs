//! Capability parser: decodes the transcoder's free-form capability listing
//! into structured records classified by media kind.
//!
//! A data row starts with a short capability code, followed by a
//! comma-separated alias list and a free-text description. Rows that do not
//! match this shape are header or banner noise and are skipped, never an
//! error; a missing row only surfaces later as an absent selection.

use vstd::prelude::*;

use crate::text::{
    lemma_split_on_nonempty, lemma_token_end_le, split_on, split_str, token_end, token_len, trim,
    trim_str,
};

verus! {

/// Classification of one capability row.
#[derive(Clone, Copy, Debug, PartialEq, Eq, Structural)]
pub enum MediaKind {
    Audio,
    Video,
    Subtitle,
    Format,
}

/// Mathematical model of one parsed capability row.
pub ghost struct CapRecord {
    /// Alias names, first one canonical; never empty for a parsed row.
    pub names: Seq<Seq<char>>,
    /// Free-text label, kept for diagnostics only.
    pub description: Seq<char>,
    pub decode: bool,
    pub encode: bool,
}

impl CapRecord {
    /// A parsed row always carries at least one alias.
    pub open spec fn wf(self) -> bool {
        self.names.len() >= 1
    }
}

/// Whether `code` is one of the exact codes used by the format listing.
pub open spec fn is_format_code(code: Seq<char>) -> bool {
    ||| (code.len() == 1 && (code[0] == 'D' || code[0] == 'E'))
    ||| (code.len() == 2 && code[0] == 'D' && code[1] == 'E')
}

/// Classify a capability code: the exact format codes first, then the
/// six-character shape whose characters 0 and 2 carry the kind marker,
/// audio before video before subtitle. Any other code marks a non-data row.
pub open spec fn classify(code: Seq<char>) -> Option<MediaKind> {
    if is_format_code(code) {
        Some(MediaKind::Format)
    } else if code.len() != 6 {
        None
    } else if code[0] == 'A' || code[2] == 'A' {
        Some(MediaKind::Audio)
    } else if code[0] == 'V' || code[2] == 'V' {
        Some(MediaKind::Video)
    } else if code[0] == 'S' || code[2] == 'S' {
        Some(MediaKind::Subtitle)
    } else {
        None
    }
}

/// The capability code of a line: the first token of the trimmed line.
pub open spec fn code_of(line: Seq<char>) -> Seq<char> {
    let t = trim(line);
    t.subrange(0, token_end(t) as int)
}

/// What parsing one line of the capability listing yields: `None` for a
/// skipped row, otherwise the record and its kind.
pub open spec fn decode_line_spec(line: Seq<char>) -> Option<(CapRecord, MediaKind)> {
    let t = trim(line);
    let k = token_end(t) as int;
    if k == t.len() {
        None
    } else {
        let code = t.subrange(0, k);
        match classify(code) {
            None => None,
            Some(kind) => {
                let rest = trim(t.subrange(k, t.len() as int));
                let m = token_end(rest) as int;
                if m == rest.len() {
                    None
                } else {
                    let rec = CapRecord {
                        names: split_on(rest.subrange(0, m), ','),
                        description: trim(rest.subrange(m, rest.len() as int)),
                        decode: if kind == MediaKind::Format {
                            code.contains('D')
                        } else {
                            code[0] == 'D'
                        },
                        encode: if kind == MediaKind::Format {
                            code.contains('E')
                        } else {
                            code[1] == 'E'
                        },
                    };
                    Some((rec, kind))
                }
            },
        }
    }
}

/// The records parsed from a whole listing, in listing order, skipped rows
/// dropped.
pub open spec fn parse_spec(lines: Seq<Seq<char>>) -> Seq<(CapRecord, MediaKind)>
    decreases lines.len(),
{
    if lines.len() == 0 {
        Seq::empty()
    } else {
        let rest = parse_spec(lines.drop_last());
        match decode_line_spec(lines.last()) {
            Some(p) => rest.push(p),
            None => rest,
        }
    }
}

/// An encoder listing only reports encode capability meaningfully, so every
/// parsed row is forced encode-capable and not decode-capable.
pub open spec fn force_encode(s: Seq<(CapRecord, MediaKind)>) -> Seq<(CapRecord, MediaKind)> {
    s.map_values(
        |p: (CapRecord, MediaKind)|
            (CapRecord { decode: false, encode: true, ..p.0 }, p.1),
    )
}

pub open spec fn encoders_spec(lines: Seq<Seq<char>>) -> Seq<(CapRecord, MediaKind)> {
    force_encode(parse_spec(lines))
}

/// The records of one kind, in listing order.
pub open spec fn filter_kind(s: Seq<(CapRecord, MediaKind)>, kind: MediaKind) -> Seq<CapRecord>
    decreases s.len(),
{
    if s.len() == 0 {
        Seq::empty()
    } else {
        let rest = filter_kind(s.drop_last(), kind);
        if s.last().1 == kind {
            rest.push(s.last().0)
        } else {
            rest
        }
    }
}

pub open spec fn formats_spec(lines: Seq<Seq<char>>) -> Seq<CapRecord> {
    filter_kind(parse_spec(lines), MediaKind::Format)
}

pub open spec fn video_encoders_spec(lines: Seq<Seq<char>>) -> Seq<CapRecord> {
    filter_kind(encoders_spec(lines), MediaKind::Video)
}

pub open spec fn audio_encoders_spec(lines: Seq<Seq<char>>) -> Seq<CapRecord> {
    filter_kind(encoders_spec(lines), MediaKind::Audio)
}

/// One row of the transcoder's capability table.
#[derive(Debug, Clone)]
pub struct FFMPEGSupport {
    names: Vec<String>,
    description: String,
    decode: bool,
    encode: bool,
}

impl View for FFMPEGSupport {
    type V = CapRecord;

    closed spec fn view(&self) -> CapRecord {
        CapRecord {
            names: self.names.deep_view(),
            description: self.description@,
            decode: self.decode,
            encode: self.encode,
        }
    }
}

/// Whether the capability code holds character `c` anywhere.
fn code_contains(s: &str, c: char) -> (r: bool)
    ensures
        r == s@.contains(c),
{
    let n = s.unicode_len();
    let mut i: usize = 0;
    while i < n
        invariant
            i <= n,
            n == s@.len(),
            forall|j: int| 0 <= j < i ==> s@[j] != c,
        decreases n - i,
    {
        if s.get_char(i) == c {
            return true;
        }
        i += 1;
    }
    false
}

/// Classify a capability code given as a string slice.
pub fn classify_code(code: &str) -> (r: Option<MediaKind>)
    ensures
        r == classify(code@),
{
    let n = code.unicode_len();
    let fmt: bool = if n == 1 {
        let c = code.get_char(0);
        c == 'D' || c == 'E'
    } else if n == 2 {
        code.get_char(0) == 'D' && code.get_char(1) == 'E'
    } else {
        false
    };
    if fmt {
        return Some(MediaKind::Format);
    }
    if n != 6 {
        return None;
    }
    let c0 = code.get_char(0);
    let c2 = code.get_char(2);
    if c0 == 'A' || c2 == 'A' {
        Some(MediaKind::Audio)
    } else if c0 == 'V' || c2 == 'V' {
        Some(MediaKind::Video)
    } else if c0 == 'S' || c2 == 'S' {
        Some(MediaKind::Subtitle)
    } else {
        None
    }
}

impl FFMPEGSupport {
    /// Decode one line of a capability listing; `None` skips a non-data row.
    pub fn decode_line(line: &str) -> (r: Option<(FFMPEGSupport, MediaKind)>)
        ensures
            (match r {
                Some(p) => decode_line_spec(line@) == Some((p.0@, p.1)) && p.0@.wf(),
                None => decode_line_spec(line@) is None,
            }),
    {
        let t = trim_str(line);
        let tn = t.unicode_len();
        let k = token_len(t);
        proof {
            lemma_token_end_le(t@);
        }
        if k == tn {
            return None;
        }
        let code = t.substring_char(0, k);
        match classify_code(code) {
            None => None,
            Some(kind) => {
                let rest = trim_str(t.substring_char(k, tn));
                let rn = rest.unicode_len();
                let m = token_len(rest);
                proof {
                    lemma_token_end_le(rest@);
                }
                if m == rn {
                    return None;
                }
                let names = split_str(rest.substring_char(0, m), ',');
                let description = trim_str(rest.substring_char(m, rn)).to_owned();
                let decode: bool;
                let encode: bool;
                if kind == MediaKind::Format {
                    decode = code_contains(code, 'D');
                    encode = code_contains(code, 'E');
                } else {
                    decode = code.get_char(0) == 'D';
                    encode = code.get_char(1) == 'E';
                }
                proof {
                    lemma_split_on_nonempty(rest@.subrange(0, m as int), ',');
                }
                let rec = FFMPEGSupport { names, description, decode, encode };
                Some((rec, kind))
            },
        }
    }

    /// Parse a whole capability listing into records with their kinds,
    /// skipping every row that does not match the data-row shape.
    pub fn parse(lines: &Vec<String>) -> (r: Vec<(FFMPEGSupport, MediaKind)>)
        ensures
            r@.len() == parse_spec(lines.deep_view()).len(),
            forall|j: int|
                0 <= j < r@.len() ==> ((#[trigger] r@[j]).0@, r@[j].1) == parse_spec(
                    lines.deep_view(),
                )[j],
            forall|j: int| 0 <= j < r@.len() ==> (#[trigger] r@[j]).0@.wf(),
    {
        let ghost dv = lines.deep_view();
        let n = lines.len();
        let mut r: Vec<(FFMPEGSupport, MediaKind)> = Vec::new();
        let mut i: usize = 0;
        while i < n
            invariant
                i <= n,
                n == lines@.len(),
                dv == lines.deep_view(),
                dv.len() == n,
                r@.len() == parse_spec(dv.take(i as int)).len(),
                forall|j: int|
                    0 <= j < r@.len() ==> ((#[trigger] r@[j]).0@, r@[j].1) == parse_spec(
                        dv.take(i as int),
                    )[j],
                forall|j: int| 0 <= j < r@.len() ==> (#[trigger] r@[j]).0@.wf(),
            decreases n - i,
        {
            proof {
                assert(dv[i as int] == lines@[i as int]@);
                assert(dv.take(i + 1).drop_last() =~= dv.take(i as int));
            }
            match Self::decode_line(lines[i].as_str()) {
                Some(pair) => r.push(pair),
                None => {},
            }
            i += 1;
        }
        proof {
            assert(dv.take(n as int) =~= dv);
        }
        r
    }

    /// Parse an encoder listing: every parsed row is reported
    /// encode-capable and not decode-capable.
    pub fn encoders(lines: &Vec<String>) -> (r: Vec<(FFMPEGSupport, MediaKind)>)
        ensures
            r@.len() == encoders_spec(lines.deep_view()).len(),
            forall|j: int|
                0 <= j < r@.len() ==> ((#[trigger] r@[j]).0@, r@[j].1) == encoders_spec(
                    lines.deep_view(),
                )[j],
            forall|j: int| 0 <= j < r@.len() ==> (#[trigger] r@[j]).0@.wf(),
    {
        let ghost dv = lines.deep_view();
        let n = lines.len();
        let mut r: Vec<(FFMPEGSupport, MediaKind)> = Vec::new();
        let mut i: usize = 0;
        while i < n
            invariant
                i <= n,
                n == lines@.len(),
                dv == lines.deep_view(),
                dv.len() == n,
                r@.len() == encoders_spec(dv.take(i as int)).len(),
                forall|j: int|
                    0 <= j < r@.len() ==> ((#[trigger] r@[j]).0@, r@[j].1) == encoders_spec(
                        dv.take(i as int),
                    )[j],
                forall|j: int| 0 <= j < r@.len() ==> (#[trigger] r@[j]).0@.wf(),
            decreases n - i,
        {
            proof {
                assert(dv[i as int] == lines@[i as int]@);
                assert(dv.take(i + 1).drop_last() =~= dv.take(i as int));
            }
            let ghost prev = parse_spec(dv.take(i as int));
            match Self::decode_line(lines[i].as_str()) {
                Some(pair) => {
                    let (rec, kind) = pair;
                    let forced = FFMPEGSupport { decode: false, encode: true, ..rec };
                    proof {
                        assert(force_encode(prev.push((rec@, kind))) =~= force_encode(prev).push(
                            (CapRecord { decode: false, encode: true, ..rec@ }, kind),
                        ));
                    }
                    r.push((forced, kind));
                },
                None => {},
            }
            i += 1;
        }
        proof {
            assert(dv.take(n as int) =~= dv);
        }
        r
    }

    /// The rows of the format listing classified as formats.
    pub fn formats(lines: &Vec<String>) -> (r: Vec<FFMPEGSupport>)
        ensures
            r@.len() == formats_spec(lines.deep_view()).len(),
            forall|j: int|
                0 <= j < r@.len() ==> (#[trigger] r@[j])@ == formats_spec(lines.deep_view())[j],
            forall|j: int| 0 <= j < r@.len() ==> (#[trigger] r@[j])@.wf(),
    {
        let pairs = Self::parse(lines);
        Self::keep_kind(pairs, MediaKind::Format, Ghost(parse_spec(lines.deep_view())))
    }

    /// The rows of an encoder listing classified as video encoders.
    pub fn video_encoders(lines: &Vec<String>) -> (r: Vec<FFMPEGSupport>)
        ensures
            r@.len() == video_encoders_spec(lines.deep_view()).len(),
            forall|j: int|
                0 <= j < r@.len() ==> (#[trigger] r@[j])@ == video_encoders_spec(
                    lines.deep_view(),
                )[j],
            forall|j: int| 0 <= j < r@.len() ==> (#[trigger] r@[j])@.wf(),
    {
        let pairs = Self::encoders(lines);
        Self::keep_kind(pairs, MediaKind::Video, Ghost(encoders_spec(lines.deep_view())))
    }

    /// The rows of an encoder listing classified as audio encoders.
    pub fn audio_encoders(lines: &Vec<String>) -> (r: Vec<FFMPEGSupport>)
        ensures
            r@.len() == audio_encoders_spec(lines.deep_view()).len(),
            forall|j: int|
                0 <= j < r@.len() ==> (#[trigger] r@[j])@ == audio_encoders_spec(
                    lines.deep_view(),
                )[j],
            forall|j: int| 0 <= j < r@.len() ==> (#[trigger] r@[j])@.wf(),
    {
        let pairs = Self::encoders(lines);
        Self::keep_kind(pairs, MediaKind::Audio, Ghost(encoders_spec(lines.deep_view())))
    }

    /// Keep the records of one kind out of a parsed listing.
    fn keep_kind(
        pairs: Vec<(FFMPEGSupport, MediaKind)>,
        kind: MediaKind,
        Ghost(model): Ghost<Seq<(CapRecord, MediaKind)>>,
    ) -> (r: Vec<FFMPEGSupport>)
        requires
            pairs@.len() == model.len(),
            forall|j: int|
                0 <= j < pairs@.len() ==> ((#[trigger] pairs@[j]).0@, pairs@[j].1) == model[j],
            forall|j: int| 0 <= j < pairs@.len() ==> (#[trigger] pairs@[j]).0@.wf(),
        ensures
            r@.len() == filter_kind(model, kind).len(),
            forall|j: int|
                0 <= j < r@.len() ==> (#[trigger] r@[j])@ == filter_kind(model, kind)[j],
            forall|j: int| 0 <= j < r@.len() ==> (#[trigger] r@[j])@.wf(),
    {
        let n = pairs.len();
        let mut pairs = pairs;
        let mut r: Vec<FFMPEGSupport> = Vec::new();
        let mut i: usize = 0;
        while i < n
            invariant
                i <= n,
                n == model.len(),
                pairs@.len() == n - i,
                forall|j: int|
                    0 <= j < pairs@.len() ==> ((#[trigger] pairs@[j]).0@, pairs@[j].1) == model[i
                        + j],
                forall|j: int| 0 <= j < pairs@.len() ==> (#[trigger] pairs@[j]).0@.wf(),
                r@.len() == filter_kind(model.take(i as int), kind).len(),
                forall|j: int|
                    0 <= j < r@.len() ==> (#[trigger] r@[j])@ == filter_kind(
                        model.take(i as int),
                        kind,
                    )[j],
                forall|j: int| 0 <= j < r@.len() ==> (#[trigger] r@[j])@.wf(),
            decreases n - i,
        {
            proof {
                assert(model.take(i + 1).drop_last() =~= model.take(i as int));
                assert(model.take(i + 1).last() == model[i as int]);
            }
            let (rec, k) = pairs.remove(0);
            if k == kind {
                r.push(rec);
            }
            i += 1;
        }
        proof {
            assert(model.take(n as int) =~= model);
        }
        r
    }

    /// Whether `name` is one of this record's aliases.
    pub fn has_name(&self, name: &str) -> (r: bool)
        ensures
            r == self@.names.contains(name@),
    {
        let n = self.names.len();
        let mut i: usize = 0;
        while i < n
            invariant
                i <= n,
                n == self.names@.len(),
                forall|j: int| 0 <= j < i ==> self.names@[j]@ != name@,
            decreases n - i,
        {
            if crate::text::str_eq(self.names[i].as_str(), name) {
                proof {
                    assert(self@.names[i as int] == name@);
                }
                return true;
            }
            i += 1;
        }
        proof {
            assert forall|j: int| 0 <= j < self@.names.len() implies #[trigger] self@.names[j]
                != name@ by {
                assert(self@.names[j] == self.names@[j]@);
            }
        }
        false
    }

    /// The canonical name of this record: its first alias.
    pub fn name(&self) -> (r: &str)
        requires
            self@.wf(),
        ensures
            r@ == self@.names[0],
    {
        self.names[0].as_str()
    }

    /// Whether this record reports encode support.
    pub fn encode(&self) -> (r: bool)
        ensures
            r == self@.encode,
    {
        self.encode
    }

    /// Whether this record reports decode support.
    pub fn decode(&self) -> (r: bool)
        ensures
            r == self@.decode,
    {
        self.decode
    }
}

/// Law: every record a capability row parses to carries at least one alias,
/// so its canonical name is always defined.
pub proof fn lemma_parsed_record_wf(line: Seq<char>)
    ensures
        (match decode_line_spec(line) {
            Some(p) => p.0.wf(),
            None => true,
        }),
{
    let t = trim(line);
    let k = token_end(t) as int;
    if k != t.len() && classify(t.subrange(0, k)) is Some {
        let rest = trim(t.subrange(k, t.len() as int));
        let m = token_end(rest) as int;
        if m != rest.len() {
            lemma_split_on_nonempty(rest.subrange(0, m), ',');
        }
    }
}

/// Law: on any capability row of a kind other than format, the decode flag
/// is exactly "character 0 of the code is 'D'" and the encode flag exactly
/// "character 1 of the code is 'E'".
pub proof fn lemma_capability_flags(line: Seq<char>)
    ensures
        (match decode_line_spec(line) {
            Some(p) => p.1 != MediaKind::Format ==> p.0.decode == (code_of(line)[0] == 'D')
                && p.0.encode == (code_of(line)[1] == 'E'),
            None => true,
        }),
{
}

} // verus!
