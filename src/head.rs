use vstd::prelude::*;

use crate::bytes::{
    copy_range, decimal_of, decimal_value, find_byte, index_of, is_digit, lemma_decimal_digits,
    lemma_find_byte, parse_decimal,
};
use crate::error::HttpError;
use crate::task::ReadOutcome;

verus! {

pub const CR: u8 = 13;

pub const LF: u8 = 10;

pub const SPACE: u8 = 32;

pub const COLON: u8 = 58;

/// Where the response head scan stands: the run of `\r` and `\n` just seen
/// (each count held at 3 once it passes 2), the field being gathered, the
/// fields already ended, and whether the blank line that ends the head has
/// been seen.
pub struct ScanState {
    pub cr: nat,
    pub lf: nat,
    pub buf: Seq<u8>,
    pub fields: Seq<Seq<u8>>,
    pub done: bool,
}

pub open spec fn bump(n: nat) -> nat {
    if n < 3 {
        n + 1
    } else {
        3
    }
}

pub open spec fn scan_start() -> ScanState {
    ScanState { cr: 0, lf: 0, buf: Seq::empty(), fields: Seq::empty(), done: false }
}

/// One byte of the response head. A `\r` or `\n` is counted; two of each
/// end the field being gathered and the head. Any other byte ends the field
/// being gathered when at least one `\r` and one `\n` came before it, then
/// starts or extends a field.
pub open spec fn scan_step(st: ScanState, b: u8) -> ScanState {
    if st.done {
        st
    } else if b == CR || b == LF {
        let cr = if b == CR {
            bump(st.cr)
        } else {
            st.cr
        };
        let lf = if b == LF {
            bump(st.lf)
        } else {
            st.lf
        };
        if cr == 2 && lf == 2 {
            ScanState { cr, lf, buf: Seq::empty(), fields: st.fields.push(st.buf), done: true }
        } else {
            ScanState { cr, lf, ..st }
        }
    } else if st.cr > 0 && st.lf > 0 {
        ScanState { cr: 0, lf: 0, buf: seq![b], fields: st.fields.push(st.buf), done: false }
    } else {
        ScanState { cr: 0, lf: 0, buf: st.buf.push(b), ..st }
    }
}

/// The scan after the bytes `s`, from the state `st`.
pub open spec fn scan_from(st: ScanState, s: Seq<u8>) -> ScanState
    decreases s.len(),
{
    if s.len() == 0 {
        st
    } else {
        scan_step(scan_from(st, s.drop_last()), s.last())
    }
}

/// The scan after the bytes `s`, from the start of a response.
pub open spec fn scan(s: Seq<u8>) -> ScanState {
    scan_from(scan_start(), s)
}

/// What a response head reports.
pub struct MetaView {
    pub status: u16,
    pub reason: Seq<u8>,
    pub headers: Seq<(Seq<u8>, Seq<u8>)>,
}

/// The status line split on spaces: the second token is the code, what
/// follows the second space is the reason.
pub open spec fn status_line(l: Seq<u8>) -> Option<(u16, Seq<u8>)> {
    let a = find_byte(l, SPACE);
    if a >= l.len() {
        None
    } else {
        let rest = l.subrange(a + 1, l.len() as int);
        let c = find_byte(rest, SPACE);
        let code = rest.subrange(0, c);
        let reason = if c < rest.len() {
            rest.subrange(c + 1, rest.len() as int)
        } else {
            Seq::empty()
        };
        match decimal_value(code) {
            Some(v) => if v <= 0xffff {
                Some((v as u16, reason))
            } else {
                None
            },
            None => None,
        }
    }
}

/// A header line split on its first colon into name and value.
pub open spec fn header_line(l: Seq<u8>) -> Option<(Seq<u8>, Seq<u8>)> {
    let k = find_byte(l, COLON);
    if k >= l.len() {
        None
    } else {
        Some((l.subrange(0, k), l.subrange(k + 1, l.len() as int)))
    }
}

/// Whether every field after the first splits as a header line.
pub open spec fn headers_split(fields: Seq<Seq<u8>>) -> bool {
    forall|i: int| 1 <= i < fields.len() ==> (#[trigger] header_line(fields[i])) is Some
}

/// What the scan of a whole response head reports: the head must have
/// ended, its first field must be a status line and each other field a
/// header line.
pub open spec fn head_outcome(st: ScanState) -> Result<MetaView, HttpError> {
    if !st.done {
        Err(HttpError::ConnectionClosedUnexpectedly)
    } else if status_line(st.fields[0]) is None || !headers_split(st.fields) {
        Err(HttpError::MalformedResponseHead)
    } else {
        let (status, reason) = status_line(st.fields[0])->0;
        Ok(
            MetaView {
                status,
                reason,
                headers: Seq::new(
                    (st.fields.len() - 1) as nat,
                    |i: int| header_line(st.fields[i + 1])->0,
                ),
            },
        )
    }
}

/// What the response head at the start of `s` reports.
pub open spec fn parse_head(s: Seq<u8>) -> Result<MetaView, HttpError> {
    head_outcome(scan(s))
}

/// The status, reason and headers of a response, in the order the server
/// sent the headers.
#[derive(Clone, Debug, PartialEq, Eq)]
pub struct ResponseMeta {
    pub status: u16,
    pub reason: Vec<u8>,
    pub headers: Vec<(Vec<u8>, Vec<u8>)>,
}

impl View for ResponseMeta {
    type V = MetaView;

    open spec fn view(&self) -> MetaView {
        MetaView {
            status: self.status,
            reason: self.reason@,
            headers: Seq::new(
                self.headers@.len(),
                |i: int| (self.headers@[i].0@, self.headers@[i].1@),
            ),
        }
    }
}

pub open spec fn meta_outcome(r: Result<ResponseMeta, HttpError>) -> Result<MetaView, HttpError> {
    match r {
        Ok(m) => Ok(m@),
        Err(e) => Err(e),
    }
}

/// A response head parser fed one byte at a time, as the bytes come off the
/// transport; it takes no byte past the blank line that ends the head.
pub struct HeadParser {
    cr: u8,
    lf: u8,
    buf: Vec<u8>,
    fields: Vec<Vec<u8>>,
    done: bool,
}

impl View for HeadParser {
    type V = ScanState;

    closed spec fn view(&self) -> ScanState {
        ScanState {
            cr: self.cr as nat,
            lf: self.lf as nat,
            buf: self.buf@,
            fields: Seq::new(self.fields@.len(), |i: int| self.fields@[i]@),
            done: self.done,
        }
    }
}

impl HeadParser {
    pub closed spec fn wf(&self) -> bool {
        self.cr <= 3 && self.lf <= 3 && (self.done ==> self.fields@.len() > 0)
    }

    pub fn new() -> (r: HeadParser)
        ensures
            r.wf(),
            r@ == scan_start(),
    {
        let r = HeadParser { cr: 0, lf: 0, buf: Vec::new(), fields: Vec::new(), done: false };
        assert(r@.fields =~= Seq::<Seq<u8>>::empty());
        r
    }

    /// Whether the blank line that ends the head has been seen.
    pub fn is_done(&self) -> (r: bool)
        ensures
            r == self@.done,
    {
        self.done
    }

    /// Takes one byte of the response; returns whether the head has ended.
    pub fn feed(&mut self, b: u8) -> (r: bool)
        requires
            old(self).wf(),
        ensures
            final(self).wf(),
            final(self)@ == scan_step(old(self)@, b),
            r == final(self)@.done,
    {
        if self.done {
            return true;
        }
        if b == CR || b == LF {
            if b == CR && self.cr < 3 {
                self.cr = self.cr + 1;
            }
            if b == LF && self.lf < 3 {
                self.lf = self.lf + 1;
            }
            if self.cr == 2 && self.lf == 2 {
                let mut field: Vec<u8> = Vec::new();
                std::mem::swap(&mut field, &mut self.buf);
                self.fields.push(field);
                self.done = true;
            }
        } else {
            if self.cr > 0 && self.lf > 0 {
                let mut field: Vec<u8> = Vec::new();
                std::mem::swap(&mut field, &mut self.buf);
                self.fields.push(field);
            }
            self.buf.push(b);
            self.cr = 0;
            self.lf = 0;
        }
        assert(self@.fields =~= scan_step(old(self)@, b).fields);
        assert(self@.buf =~= scan_step(old(self)@, b).buf);
        self.done
    }

    /// Takes what one read of a single byte from the transport gave: the
    /// byte, nothing yet, the end of the stream, or a failure. Returns the
    /// outcome of the negotiation's read once the head has ended or cannot
    /// end any more; `None` while more bytes are needed.
    pub fn on_read(&mut self, read: ReadOutcome, byte: u8) -> (r: Option<Result<ResponseMeta, HttpError>>)
        requires
            old(self).wf(),
            read matches ReadOutcome::Data(k) ==> k <= 1,
        ensures
            final(self).wf(),
            match read {
                ReadOutcome::Data(k) => if k == 1 {
                    final(self)@ == scan_step(old(self)@, byte) && if final(self)@.done {
                        (r matches Some(o) && meta_outcome(o) == head_outcome(final(self)@))
                    } else {
                        r is None
                    }
                } else {
                    final(self)@ == old(self)@ && (r matches Some(o) && meta_outcome(o)
                        == head_outcome(old(self)@))
                },
                ReadOutcome::WouldBlock => final(self)@ == old(self)@ && r is None,
                ReadOutcome::Failed => final(self)@ == old(self)@ && r == Some(
                    Err::<ResponseMeta, HttpError>(HttpError::ConnectionClosedUnexpectedly),
                ),
            },
    {
        match read {
            ReadOutcome::Data(k) => {
                if k == 1 {
                    if self.feed(byte) {
                        Some(self.finish())
                    } else {
                        None
                    }
                } else {
                    Some(self.finish())
                }
            },
            ReadOutcome::WouldBlock => None,
            ReadOutcome::Failed => Some(Err(HttpError::ConnectionClosedUnexpectedly)),
        }
    }

    /// What the head that was fed reports.
    pub fn finish(&self) -> (r: Result<ResponseMeta, HttpError>)
        requires
            self.wf(),
        ensures
            meta_outcome(r) == head_outcome(self@),
    {
        if !self.done {
            return Err(HttpError::ConnectionClosedUnexpectedly);
        }
        let (status, reason) = match split_status_line(&self.fields[0]) {
            Some(p) => p,
            None => return Err(HttpError::MalformedResponseHead),
        };
        let mut headers: Vec<(Vec<u8>, Vec<u8>)> = Vec::new();
        let mut i: usize = 1;
        while i < self.fields.len()
            invariant
                self.wf(),
                self@.done,
                status_line(self@.fields[0]) is Some,
                1 <= i <= self.fields@.len(),
                headers@.len() == i - 1,
                forall|j: int| 1 <= j < i ==> (#[trigger] header_line(self@.fields[j])) is Some,
                forall|j: int|
                    0 <= j < headers@.len() ==> (#[trigger] headers@[j].0@, headers@[j].1@)
                        == header_line(self@.fields[j + 1])->0,
            decreases self.fields.len() - i,
        {
            match split_header_line(&self.fields[i]) {
                Some(p) => {
                    headers.push(p);
                },
                None => {
                    assert(self@.fields[i as int] == self.fields@[i as int]@);
                    assert(header_line(self@.fields[i as int]) is None);
                    assert(!headers_split(self@.fields));
                    return Err(HttpError::MalformedResponseHead);
                },
            }
            i = i + 1;
        }
        let m = ResponseMeta { status, reason, headers };
        assert(headers_split(self@.fields));
        assert(m@.headers =~= head_outcome(self@)->Ok_0.headers);
        Ok(m)
    }
}

fn split_status_line(l: &Vec<u8>) -> (r: Option<(u16, Vec<u8>)>)
    ensures
        match status_line(l@) {
            Some(p) => match r {
                Some(q) => q.0 == p.0 && q.1@ == p.1,
                None => false,
            },
            None => r is None,
        },
{
    let n = l.len();
    let a = index_of(l.as_slice(), 0, SPACE);
    assert(l@.subrange(0, n as int) =~= l@);
    if a >= n {
        return None;
    }
    let b = index_of(l.as_slice(), a + 1, SPACE);
    let ghost rest = l@.subrange(a + 1, n as int);
    let code = copy_range(l.as_slice(), a + 1, b);
    assert(code@ =~= rest.subrange(0, b - (a + 1)));
    let reason = if b < n {
        let r = copy_range(l.as_slice(), b + 1, n);
        assert(r@ =~= rest.subrange(b - (a + 1) + 1, rest.len() as int));
        r
    } else {
        Vec::new()
    };
    match parse_decimal(code.as_slice(), 0xffff) {
        Some(v) => Some((v as u16, reason)),
        None => None,
    }
}

fn split_header_line(l: &Vec<u8>) -> (r: Option<(Vec<u8>, Vec<u8>)>)
    ensures
        match header_line(l@) {
            Some(p) => match r {
                Some(q) => q.0@ == p.0 && q.1@ == p.1,
                None => false,
            },
            None => r is None,
        },
{
    let n = l.len();
    let k = index_of(l.as_slice(), 0, COLON);
    assert(l@.subrange(0, n as int) =~= l@);
    if k >= n {
        return None;
    }
    Some((copy_range(l.as_slice(), 0, k), copy_range(l.as_slice(), k + 1, n)))
}

/// Parses the response head at the start of `s`; bytes past the blank line
/// that ends it are not looked at.
pub fn parse_response_head(s: &[u8]) -> (r: Result<ResponseMeta, HttpError>)
    ensures
        meta_outcome(r) == parse_head(s@),
{
    let mut p = HeadParser::new();
    let mut i: usize = 0;
    while i < s.len()
        invariant
            i <= s@.len(),
            p.wf(),
            p@ == scan(s@.subrange(0, i as int)),
        decreases s.len() - i,
    {
        let ghost pre = s@.subrange(0, i as int + 1);
        assert(pre.drop_last() =~= s@.subrange(0, i as int));
        p.feed(s[i]);
        i = i + 1;
    }
    assert(s@.subrange(0, s@.len() as int) =~= s@);
    p.finish()
}

} // verus!

verus! {

/// Scanning two pieces one after the other is scanning them joined.
pub proof fn lemma_scan_concat(st: ScanState, a: Seq<u8>, b: Seq<u8>)
    ensures
        scan_from(st, a + b) == scan_from(scan_from(st, a), b),
    decreases b.len(),
{
    if b.len() == 0 {
        assert(a + b =~= a);
    } else {
        assert((a + b).drop_last() =~= a + b.drop_last());
        assert((a + b).last() == b.last());
        lemma_scan_concat(st, a, b.drop_last());
    }
}

/// Once the head has ended, further bytes change nothing.
pub proof fn lemma_scan_done(st: ScanState, s: Seq<u8>)
    requires
        st.done,
    ensures
        scan_from(st, s) == st,
    decreases s.len(),
{
    if s.len() > 0 {
        lemma_scan_done(st, s.drop_last());
    }
}

/// Parsing a response head depends on nothing past the blank line that ends
/// it: a stream that holds the whole head parses as the head alone, on
/// every parse, whatever body bytes follow.
pub proof fn lemma_parse_ignores_body(head: Seq<u8>, body: Seq<u8>)
    requires
        scan(head).done,
    ensures
        parse_head(head + body) == parse_head(head),
{
    lemma_scan_concat(scan_start(), head, body);
    lemma_scan_done(scan(head), body);
}

} // verus!

verus! {

pub open spec fn line_end() -> Seq<u8> {
    seq![CR, LF]
}

/// Whether `s` holds neither `\r` nor `\n`.
pub open spec fn no_line_break(s: Seq<u8>) -> bool {
    forall|i: int| 0 <= i < s.len() ==> #[trigger] s[i] != CR && s[i] != LF
}

pub open spec fn lacks(s: Seq<u8>, b: u8) -> bool {
    forall|i: int| 0 <= i < s.len() ==> #[trigger] s[i] != b
}

/// A status line as a server writes it: `<version> <code> <reason>`.
pub open spec fn status_line_bytes(version: Seq<u8>, status: u16, reason: Seq<u8>) -> Seq<u8> {
    version + seq![SPACE] + decimal_of(status as nat) + seq![SPACE] + reason
}

/// A header line as a server writes it: `<name>:<value>`.
pub open spec fn header_line_bytes(h: (Seq<u8>, Seq<u8>)) -> Seq<u8> {
    h.0 + seq![COLON] + h.1
}

pub open spec fn header_block(h: Seq<(Seq<u8>, Seq<u8>)>) -> Seq<u8>
    decreases h.len(),
{
    if h.len() == 0 {
        Seq::empty()
    } else {
        header_block(h.drop_last()) + header_line_bytes(h.last()) + line_end()
    }
}

/// A response head as a server writes it: the status line, each header
/// line, each ended by `\r\n`, then the blank line.
pub open spec fn response_head_bytes(
    version: Seq<u8>,
    status: u16,
    reason: Seq<u8>,
    headers: Seq<(Seq<u8>, Seq<u8>)>,
) -> Seq<u8> {
    status_line_bytes(version, status, reason) + line_end() + header_block(headers) + line_end()
}

/// The lines of such a head.
pub open spec fn head_lines(
    version: Seq<u8>,
    status: u16,
    reason: Seq<u8>,
    headers: Seq<(Seq<u8>, Seq<u8>)>,
) -> Seq<Seq<u8>> {
    seq![status_line_bytes(version, status, reason)] + Seq::new(
        headers.len(),
        |i: int| header_line_bytes(headers[i]),
    )
}

/// What a server can write in such a head: a version without spaces, no
/// line breaks in any part, and no colon in a header's name.
pub open spec fn writable_head(
    version: Seq<u8>,
    reason: Seq<u8>,
    headers: Seq<(Seq<u8>, Seq<u8>)>,
) -> bool {
    &&& version.len() > 0
    &&& no_line_break(version)
    &&& lacks(version, SPACE)
    &&& no_line_break(reason)
    &&& forall|i: int|
        0 <= i < headers.len() ==> no_line_break(#[trigger] headers[i].0) && no_line_break(
            headers[i].1,
        ) && lacks(headers[i].0, COLON)
}

proof fn lemma_scan_line(st: ScanState, line: Seq<u8>)
    requires
        !st.done,
        line.len() > 0,
        no_line_break(line),
    ensures
        scan_from(st, line) == (ScanState {
            cr: 0,
            lf: 0,
            buf: if st.cr > 0 && st.lf > 0 {
                line
            } else {
                st.buf + line
            },
            fields: if st.cr > 0 && st.lf > 0 {
                st.fields.push(st.buf)
            } else {
                st.fields
            },
            done: false,
        }),
    decreases line.len(),
{
    let b = line.last();
    assert(b != CR && b != LF) by {
        assert(line[line.len() - 1] == b);
    }
    if line.len() == 1 {
        assert(scan_from(st, line.drop_last()) == st);
        assert(line =~= seq![b]);
        assert(st.buf.push(b) =~= st.buf + line);
    } else {
        let d = line.drop_last();
        assert(no_line_break(d)) by {
            assert forall|i: int| 0 <= i < d.len() implies #[trigger] d[i] != CR && d[i] != LF by {
                assert(d[i] == line[i]);
            }
        }
        lemma_scan_line(st, d);
        if st.cr > 0 && st.lf > 0 {
            assert(d.push(b) =~= line);
        } else {
            assert((st.buf + d).push(b) =~= st.buf + line);
        }
    }
}

proof fn lemma_scan_line_end(st: ScanState)
    requires
        !st.done,
        st.cr == 0,
        st.lf == 0,
    ensures
        scan_from(st, line_end()) == (ScanState { cr: 1, lf: 1, ..st }),
{
    let e = line_end();
    assert(e.drop_last() =~= seq![CR]);
    assert(seq![CR].drop_last() =~= Seq::<u8>::empty());
    assert(scan_from(st, Seq::<u8>::empty()) == st);
    assert(scan_from(st, seq![CR]) == scan_step(st, CR));
}

proof fn lemma_scan_blank_line(st: ScanState)
    requires
        !st.done,
        st.cr == 1,
        st.lf == 1,
    ensures
        scan_from(st, line_end()) == (ScanState {
            cr: 2,
            lf: 2,
            buf: Seq::empty(),
            fields: st.fields.push(st.buf),
            done: true,
        }),
{
    let e = line_end();
    assert(e.drop_last() =~= seq![CR]);
    assert(seq![CR].drop_last() =~= Seq::<u8>::empty());
    assert(scan_from(st, Seq::<u8>::empty()) == st);
    assert(scan_from(st, seq![CR]) == scan_step(st, CR));
}

proof fn lemma_status_line_no_break(version: Seq<u8>, status: u16, reason: Seq<u8>)
    requires
        no_line_break(version),
        no_line_break(reason),
    ensures
        no_line_break(status_line_bytes(version, status, reason)),
        status_line_bytes(version, status, reason).len() > 0,
{
    lemma_decimal_digits(status as nat);
    let d = decimal_of(status as nat);
    let s = status_line_bytes(version, status, reason);
    assert forall|i: int| 0 <= i < s.len() implies #[trigger] s[i] != CR && s[i] != LF by {
        if i < version.len() {
            assert(s[i] == version[i]);
        } else if i == version.len() {
        } else if i < version.len() + 1 + d.len() {
            assert(s[i] == d[i - version.len() - 1]);
            assert(is_digit(d[i - version.len() - 1]));
        } else if i == version.len() + 1 + d.len() {
        } else {
            assert(s[i] == reason[i - version.len() - 2 - d.len()]);
        }
    }
}

proof fn lemma_header_line_no_break(h: (Seq<u8>, Seq<u8>))
    requires
        no_line_break(h.0),
        no_line_break(h.1),
    ensures
        no_line_break(header_line_bytes(h)),
        header_line_bytes(h).len() > 0,
{
    let s = header_line_bytes(h);
    assert forall|i: int| 0 <= i < s.len() implies #[trigger] s[i] != CR && s[i] != LF by {
        if i < h.0.len() {
            assert(s[i] == h.0[i]);
        } else if i == h.0.len() {
        } else {
            assert(s[i] == h.1[i - h.0.len() - 1]);
        }
    }
}

proof fn lemma_scan_lines(
    version: Seq<u8>,
    status: u16,
    reason: Seq<u8>,
    headers: Seq<(Seq<u8>, Seq<u8>)>,
)
    requires
        writable_head(version, reason, headers),
    ensures
        ({
            let l = head_lines(version, status, reason, headers);
            scan(status_line_bytes(version, status, reason) + line_end() + header_block(headers))
                == (ScanState { cr: 1, lf: 1, buf: l.last(), fields: l.drop_last(), done: false })
        }),
    decreases headers.len(),
{
    let sl = status_line_bytes(version, status, reason);
    let l = head_lines(version, status, reason, headers);
    lemma_status_line_no_break(version, status, reason);
    if headers.len() == 0 {
        assert(sl + line_end() + header_block(headers) =~= sl + line_end());
        lemma_scan_concat(scan_start(), sl, line_end());
        lemma_scan_line(scan_start(), sl);
        assert(Seq::<u8>::empty() + sl =~= sl);
        lemma_scan_line_end(scan(sl));
        assert(l =~= seq![sl]);
        assert(l.last() == sl);
        assert(l.drop_last() =~= Seq::<Seq<u8>>::empty());
        assert(scan(sl + line_end() + header_block(headers)) == scan(sl + line_end()));
    } else {
        let hs = headers.drop_last();
        let last = headers.last();
        assert(writable_head(version, reason, hs)) by {
            assert forall|i: int| 0 <= i < hs.len() implies no_line_break(#[trigger] hs[i].0)
                && no_line_break(hs[i].1) && lacks(hs[i].0, COLON) by {
                assert(hs[i] == headers[i]);
            }
        }
        lemma_scan_lines(version, status, reason, hs);
        let front = sl + line_end() + header_block(hs);
        let hl = header_line_bytes(last);
        assert(no_line_break(last.0) && no_line_break(last.1)) by {
            assert(last == headers[headers.len() - 1]);
        }
        lemma_header_line_no_break(last);
        assert(sl + line_end() + header_block(headers) =~= front + (hl + line_end()));
        lemma_scan_concat(scan_start(), front, hl + line_end());
        lemma_scan_concat(scan(front), hl, line_end());
        lemma_scan_line(scan(front), hl);
        lemma_scan_line_end(scan_from(scan(front), hl));
        let l2 = head_lines(version, status, reason, hs);
        assert(l =~= l2.push(hl));
        assert(l.drop_last() =~= l2);
        assert(l.last() == hl);
        assert(l2.drop_last().push(l2.last()) =~= l2);
    }
}

proof fn lemma_status_line_splits(version: Seq<u8>, status: u16, reason: Seq<u8>)
    requires
        lacks(version, SPACE),
    ensures
        status_line(status_line_bytes(version, status, reason)) == Some((status, reason)),
{
    let d = decimal_of(status as nat);
    let s = status_line_bytes(version, status, reason);
    lemma_decimal_digits(status as nat);
    assert forall|j: int| 0 <= j < version.len() implies s[j] != SPACE by {
        assert(s[j] == version[j]);
    }
    assert(s[version.len() as int] == SPACE);
    lemma_find_byte(s, SPACE, version.len() as int);
    let rest = s.subrange(version.len() as int + 1, s.len() as int);
    assert(rest =~= d + seq![SPACE] + reason);
    assert forall|j: int| 0 <= j < d.len() implies rest[j] != SPACE by {
        assert(rest[j] == d[j]);
        assert(is_digit(d[j]));
    }
    assert(rest[d.len() as int] == SPACE);
    lemma_find_byte(rest, SPACE, d.len() as int);
    assert(rest.subrange(0, d.len() as int) =~= d);
    assert(rest.subrange(d.len() as int + 1, rest.len() as int) =~= reason);
}

proof fn lemma_header_line_splits(h: (Seq<u8>, Seq<u8>))
    requires
        lacks(h.0, COLON),
    ensures
        header_line(header_line_bytes(h)) == Some(h),
{
    let s = header_line_bytes(h);
    assert forall|j: int| 0 <= j < h.0.len() implies s[j] != COLON by {
        assert(s[j] == h.0[j]);
    }
    assert(s[h.0.len() as int] == COLON);
    lemma_find_byte(s, COLON, h.0.len() as int);
    assert(s.subrange(0, h.0.len() as int) =~= h.0);
    assert(s.subrange(h.0.len() as int + 1, s.len() as int) =~= h.1);
}

/// A response head as a server writes it parses back to the server's
/// status, reason and headers, every header in the order it was sent.
pub proof fn lemma_head_round_trip(
    version: Seq<u8>,
    status: u16,
    reason: Seq<u8>,
    headers: Seq<(Seq<u8>, Seq<u8>)>,
)
    requires
        writable_head(version, reason, headers),
    ensures
        parse_head(response_head_bytes(version, status, reason, headers)) == Ok::<
            MetaView,
            HttpError,
        >(MetaView { status, reason, headers }),
{
    let sl = status_line_bytes(version, status, reason);
    let front = sl + line_end() + header_block(headers);
    let l = head_lines(version, status, reason, headers);
    lemma_scan_lines(version, status, reason, headers);
    lemma_scan_concat(scan_start(), front, line_end());
    lemma_scan_blank_line(scan(front));
    let st = scan(response_head_bytes(version, status, reason, headers));
    assert(st.fields =~= l);
    assert(l[0] == sl);
    lemma_status_line_splits(version, status, reason);
    assert forall|i: int| 1 <= i < l.len() implies (#[trigger] header_line(l[i])) is Some by {
        assert(l[i] == header_line_bytes(headers[i - 1]));
        lemma_header_line_splits(headers[i - 1]);
    }
    let hv = Seq::new((l.len() - 1) as nat, |i: int| header_line(l[i + 1])->0);
    assert forall|i: int| 0 <= i < headers.len() implies hv[i] == headers[i] by {
        assert(l[i + 1] == header_line_bytes(headers[i]));
        lemma_header_line_splits(headers[i]);
    }
    assert(hv =~= headers);
}

} // verus!
