use vstd::prelude::*;
use vstd::string::*;
use crate::xmlhelper::{Event, attribute_value, find_attribute};
use crate::facts::lemma_license_last_wins;

verus! {

/// Location that every archive url of a manifest is relative to.
pub const XML_URL_BASE: &'static str = "https://dl.google.com/android/repository";

/// Location of the manifest itself.
pub const XML_URL: &'static str = "https://dl.google.com/android/repository/repository-11.xml";

/// Why a manifest was rejected.
#[derive(Debug)]
pub enum ParseError {
    /// The stream does not begin with an `sdk-repository` element-open.
    MissingRoot,
    /// An element-close for `found` came where `expected` had to close.
    UnexpectedEnd { expected: String, found: String },
    /// An element-open for `found` came inside the bare-value element `inside`.
    UnexpectedStart { inside: String, found: String },
    /// The stream ended before `inside` was closed.
    Truncated { inside: String },
    /// A required attribute is absent.
    MissingAttribute { element: String, attribute: String },
    /// The text of `field` is not a value that the field admits.
    InvalidValue { field: String, text: String },
}

/// [`ParseError`] with its strings as character sequences.
pub enum ParseErrorModel {
    MissingRoot,
    UnexpectedEnd { expected: Seq<char>, found: Seq<char> },
    UnexpectedStart { inside: Seq<char>, found: Seq<char> },
    Truncated { inside: Seq<char> },
    MissingAttribute { element: Seq<char>, attribute: Seq<char> },
    InvalidValue { field: Seq<char>, text: Seq<char> },
}

impl View for ParseError {
    type V = ParseErrorModel;

    open spec fn view(&self) -> ParseErrorModel {
        match self {
            ParseError::MissingRoot => ParseErrorModel::MissingRoot,
            ParseError::UnexpectedEnd { expected, found } => ParseErrorModel::UnexpectedEnd {
                expected: expected@,
                found: found@,
            },
            ParseError::UnexpectedStart { inside, found } => ParseErrorModel::UnexpectedStart {
                inside: inside@,
                found: found@,
            },
            ParseError::Truncated { inside } => ParseErrorModel::Truncated { inside: inside@ },
            ParseError::MissingAttribute { element, attribute } =>
                ParseErrorModel::MissingAttribute { element: element@, attribute: attribute@ },
            ParseError::InvalidValue { field, text } => ParseErrorModel::InvalidValue {
                field: field@,
                text: text@,
            },
        }
    }
}

impl ParseError {
    /// Content failed validation under a well-formed structure.
    pub fn is_value_error(&self) -> (r: bool)
        ensures
            r == (self is InvalidValue),
    {
        match self {
            ParseError::InvalidValue { .. } => true,
            _ => false,
        }
    }

    /// Nesting, closing tags, required attributes or the stream's end were wrong.
    pub fn is_structure_error(&self) -> (r: bool)
        ensures
            r == !(self is InvalidValue),
    {
        !self.is_value_error()
    }
}

/// The result of a handler that started at `start`, against what the grammar gives there:
/// on success the value and the position after the element's close, else the same error.
pub open spec fn outcome<T: View>(
    r: Result<(T, usize), ParseError>,
    s: Result<(T::V, int), ParseErrorModel>,
    start: int,
    len: int,
) -> bool {
    match r {
        Ok((v, p)) => s == Ok::<(T::V, int), ParseErrorModel>((v@, p as int)) && start < p <= len,
        Err(e) => s == Err::<(T::V, int), ParseErrorModel>(e@),
    }
}

/// A handler moved forward, and stayed inside the stream.
pub open spec fn moved_on(pos: int, p: int, len: int) -> bool {
    pos < p <= len
}

/// Text of a bare-value element `name` whose open precedes `pos`: the last text event
/// before its close (`last` if none comes).
pub open spec fn leaf_from(evs: Seq<Event>, pos: int, name: Seq<char>, last: Seq<char>) -> Result<
    (Seq<char>, int),
    ParseErrorModel,
>
    decreases evs.len() - pos,
{
    if pos < 0 || pos >= evs.len() {
        Err(ParseErrorModel::Truncated { inside: name })
    } else {
        match evs[pos] {
            Event::Text { text } => leaf_from(evs, pos + 1, name, text@),
            Event::EndElement { local_name } => if local_name@ == name {
                Ok((last, pos + 1))
            } else {
                Err(ParseErrorModel::UnexpectedEnd { expected: name, found: local_name@ })
            },
            Event::StartElement { local_name, .. } => Err(
                ParseErrorModel::UnexpectedStart { inside: name, found: local_name@ },
            ),
        }
    }
}

pub open spec fn leaf_text(evs: Seq<Event>, pos: int, name: Seq<char>) -> Result<
    (Seq<char>, int),
    ParseErrorModel,
> {
    leaf_from(evs, pos, name, Seq::empty())
}

/// Position after the close of element `name` whose open precedes `pos`, where nested
/// elements are passed over whole.
pub open spec fn skip_from(evs: Seq<Event>, pos: int, name: Seq<char>) -> Result<
    int,
    ParseErrorModel,
>
    decreases evs.len() - pos,
{
    if pos < 0 || pos >= evs.len() {
        Err(ParseErrorModel::Truncated { inside: name })
    } else {
        match evs[pos] {
            Event::Text { .. } => skip_from(evs, pos + 1, name),
            Event::EndElement { local_name } => if local_name@ == name {
                Ok(pos + 1)
            } else {
                Err(ParseErrorModel::UnexpectedEnd { expected: name, found: local_name@ })
            },
            Event::StartElement { local_name, .. } => match skip_from(evs, pos + 1, local_name@) {
                Ok(p) => if moved_on(pos, p, evs.len() as int) {
                    skip_from(evs, p, name)
                } else {
                    Err(ParseErrorModel::Truncated { inside: name })
                },
                Err(e) => Err(e),
            },
        }
    }
}

pub open spec fn is_digit(c: char) -> bool {
    '0' <= c && c <= '9'
}

pub open spec fn all_digits(s: Seq<char>) -> bool {
    forall|i: int| 0 <= i < s.len() ==> is_digit(#[trigger] s[i])
}

/// The number that a string of decimal digits writes.
pub open spec fn decimal_value(s: Seq<char>) -> int
    decreases s.len(),
{
    if s.len() == 0 {
        0
    } else {
        decimal_value(s.drop_last()) * 10 + (s.last() as int - '0' as int)
    }
}

/// `s` is a non-empty string of decimal digits whose value fits in a `u32`.
pub open spec fn is_decimal_u32(s: Seq<char>) -> bool {
    s.len() > 0 && all_digits(s) && decimal_value(s) <= u32::MAX
}

proof fn lemma_decimal_prefix_le(s: Seq<char>, k: int)
    requires
        all_digits(s),
        0 <= k <= s.len(),
    ensures
        0 <= decimal_value(s.take(k)) <= decimal_value(s),
    decreases s.len(),
{
    if k == s.len() {
        assert(s.take(k) =~= s);
        lemma_decimal_nonneg(s);
    } else {
        let d = s.drop_last();
        assert(all_digits(d)) by {
            assert forall|i: int| 0 <= i < d.len() implies is_digit(#[trigger] d[i]) by {
                assert(d[i] == s[i]);
            }
        }
        lemma_decimal_prefix_le(d, k);
        assert(d.take(k) =~= s.take(k));
        assert(is_digit(s[s.len() - 1]));
    }
}

proof fn lemma_decimal_nonneg(s: Seq<char>)
    requires
        all_digits(s),
    ensures
        decimal_value(s) >= 0,
    decreases s.len(),
{
    if s.len() > 0 {
        let d = s.drop_last();
        assert(all_digits(d)) by {
            assert forall|i: int| 0 <= i < d.len() implies is_digit(#[trigger] d[i]) by {
                assert(d[i] == s[i]);
            }
        }
        lemma_decimal_nonneg(d);
        assert(is_digit(s[s.len() - 1]));
    }
}

/// Reads a non-negative decimal number; nothing but digits is admitted.
pub fn parse_decimal(s: &String) -> (r: Option<u32>)
    ensures
        r == (if is_decimal_u32(s@) {
            Some(decimal_value(s@) as u32)
        } else {
            None::<u32>
        }),
{
    let t = s.as_str();
    let n = t.unicode_len();
    if n == 0 {
        return None;
    }
    let mut value: u64 = 0;
    let mut i: usize = 0;
    while i < n
        invariant
            t@ == s@,
            n == s@.len(),
            i <= n,
            all_digits(s@.take(i as int)),
            value == decimal_value(s@.take(i as int)),
            value <= u32::MAX,
        decreases n - i,
    {
        let c = t.get_char(i);
        if !('0' <= c && c <= '9') {
            assert(!all_digits(s@));
            return None;
        }
        assert(s@.take(i + 1).drop_last() =~= s@.take(i as int));
        value = value * 10 + (c as u64 - '0' as u64);
        assert(all_digits(s@.take(i + 1))) by {
            assert forall|j: int| 0 <= j < i + 1 implies is_digit(#[trigger] s@.take(i + 1)[j]) by {
                if j < i {
                    assert(s@.take(i + 1)[j] == s@.take(i as int)[j]);
                }
            }
        }
        i = i + 1;
        if value > u32::MAX as u64 {
            proof {
                if all_digits(s@) {
                    lemma_decimal_prefix_le(s@, i as int);
                }
            }
            return None;
        }
    }
    assert(s@.take(n as int) =~= s@);
    Some(value as u32)
}

/// `s` and the literal `lit` hold the same characters.
fn text_is(s: &String, lit: &str) -> (r: bool)
    ensures
        r == (s@ == lit@),
{
    let t = lit.to_owned();
    *s == t
}

/// Reads the text of a bare-value element `name`, whose open came just before `start`,
/// through its close.
pub fn parse_string(evs: &Vec<Event>, start: usize, name: &String) -> (r: Result<
    (String, usize),
    ParseError,
>)
    requires
        start <= evs.len(),
    ensures
        outcome(r, leaf_text(evs@, start as int, name@), start as int, evs.len() as int),
{
    let mut last = String::new();
    let mut pos = start;
    loop
        invariant
            start <= pos <= evs.len(),
            leaf_from(evs@, pos as int, name@, last@) == leaf_text(evs@, start as int, name@),
        decreases evs.len() - pos,
    {
        if pos >= evs.len() {
            return Err(ParseError::Truncated { inside: name.clone() });
        }
        match &evs[pos] {
            Event::Text { text } => {
                last = text.clone();
                pos = pos + 1;
            },
            Event::EndElement { local_name } => {
                if *local_name == *name {
                    return Ok((last, pos + 1));
                } else {
                    return Err(
                        ParseError::UnexpectedEnd { expected: name.clone(), found: local_name.clone() },
                    );
                }
            },
            Event::StartElement { local_name, .. } => {
                return Err(
                    ParseError::UnexpectedStart { inside: name.clone(), found: local_name.clone() },
                );
            },
        }
    }
}

/// Passes over the rest of element `name`, whose open came just before `start`, with
/// everything nested in it.
pub fn skip_element(evs: &Vec<Event>, start: usize, name: &String) -> (r: Result<usize, ParseError>)
    requires
        start <= evs.len(),
    ensures
        match r {
            Ok(p) => skip_from(evs@, start as int, name@) == Ok::<int, ParseErrorModel>(p as int)
                && start < p <= evs.len(),
            Err(e) => skip_from(evs@, start as int, name@) == Err::<int, ParseErrorModel>(e@),
        },
    decreases evs.len() - start,
{
    let mut pos = start;
    loop
        invariant
            start <= pos <= evs.len(),
            skip_from(evs@, pos as int, name@) == skip_from(evs@, start as int, name@),
        decreases evs.len() - pos,
    {
        if pos >= evs.len() {
            return Err(ParseError::Truncated { inside: name.clone() });
        }
        match &evs[pos] {
            Event::Text { .. } => {
                pos = pos + 1;
            },
            Event::EndElement { local_name } => {
                if *local_name == *name {
                    return Ok(pos + 1);
                } else {
                    return Err(
                        ParseError::UnexpectedEnd { expected: name.clone(), found: local_name.clone() },
                    );
                }
            },
            Event::StartElement { local_name, .. } => {
                match skip_element(evs, pos + 1, local_name) {
                    Ok(p) => {
                        pos = p;
                    },
                    Err(e) => {
                        return Err(e);
                    },
                }
            },
        }
    }
}


/// Operating system that an archive is built for.
#[derive(Debug, Clone, Copy, PartialEq, Eq, Structural)]
pub enum OsType {
    Linux,
    Macosx,
    Windows,
}

impl View for OsType {
    type V = OsType;

    open spec fn view(&self) -> OsType {
        *self
    }
}

/// Word size of the host that an archive is built for.
#[derive(Debug, Clone, Copy, PartialEq, Eq, Structural)]
pub enum BitSize {
    Bit32,
    Bit64,
}

impl View for BitSize {
    type V = BitSize;

    open spec fn view(&self) -> BitSize {
        *self
    }
}

/// A structured version number; the optional parts are independent of each other.
#[derive(Debug, Clone, Copy, PartialEq, Eq, Structural)]
pub struct Revision {
    pub major: u32,
    pub minor: Option<u32>,
    pub micro: Option<u32>,
    pub preview: Option<u32>,
}

impl View for Revision {
    type V = Revision;

    open spec fn view(&self) -> Revision {
        *self
    }
}

/// One downloadable package of a component.
#[derive(Debug)]
pub struct Archive {
    pub checksum: String,
    pub url: String,
    pub host_os: Option<OsType>,
    pub host_bits: Option<BitSize>,
}

pub struct ArchiveModel {
    pub checksum: Seq<char>,
    pub url: Seq<char>,
    pub host_os: Option<OsType>,
    pub host_bits: Option<BitSize>,
}

impl View for Archive {
    type V = ArchiveModel;

    open spec fn view(&self) -> ArchiveModel {
        ArchiveModel {
            checksum: self.checksum@,
            url: self.url@,
            host_os: self.host_os,
            host_bits: self.host_bits,
        }
    }
}

impl Archive {
    /// Where the archive can be downloaded: its url under [`XML_URL_BASE`].
    pub fn absolute_url(&self) -> (r: String)
        ensures
            r@ == XML_URL_BASE@ + "/"@ + self.url@,
    {
        let mut r = XML_URL_BASE.to_owned();
        r.append("/");
        r.append(self.url.as_str());
        r
    }
}

pub open spec fn archives_view(v: Seq<Archive>) -> Seq<ArchiveModel> {
    v.map_values(|a: Archive| a@)
}

pub open spec fn truncated(name: Seq<char>) -> ParseErrorModel {
    ParseErrorModel::Truncated { inside: name }
}

/// Value of an integer element `name`: its text must be a `u32` in decimal digits.
pub open spec fn u32_leaf(evs: Seq<Event>, pos: int, name: Seq<char>) -> Result<
    (u32, int),
    ParseErrorModel,
> {
    match leaf_text(evs, pos, name) {
        Ok((t, p)) => if is_decimal_u32(t) {
            Ok((decimal_value(t) as u32, p))
        } else {
            Err(ParseErrorModel::InvalidValue { field: name, text: t })
        },
        Err(e) => Err(e),
    }
}

/// The operating system that a `host-os` text names.
pub open spec fn os_named(t: Seq<char>) -> Option<OsType> {
    if t == "linux"@ {
        Some(OsType::Linux)
    } else if t == "macosx"@ {
        Some(OsType::Macosx)
    } else if t == "windows"@ {
        Some(OsType::Windows)
    } else {
        None
    }
}

/// The word size that a `host-bits` text names.
pub open spec fn bits_named(t: Seq<char>) -> Option<BitSize> {
    if t == "32"@ {
        Some(BitSize::Bit32)
    } else if t == "64"@ {
        Some(BitSize::Bit64)
    } else {
        None
    }
}

pub open spec fn host_os_leaf(evs: Seq<Event>, pos: int) -> Result<(OsType, int), ParseErrorModel> {
    match leaf_text(evs, pos, "host-os"@) {
        Ok((t, p)) => match os_named(t) {
            Some(o) => Ok((o, p)),
            None => Err(ParseErrorModel::InvalidValue { field: "host-os"@, text: t }),
        },
        Err(e) => Err(e),
    }
}

pub open spec fn host_bits_leaf(evs: Seq<Event>, pos: int) -> Result<(BitSize, int), ParseErrorModel> {
    match leaf_text(evs, pos, "host-bits"@) {
        Ok((t, p)) => match bits_named(t) {
            Some(b) => Ok((b, p)),
            None => Err(ParseErrorModel::InvalidValue { field: "host-bits"@, text: t }),
        },
        Err(e) => Err(e),
    }
}

pub open spec fn empty_archive() -> ArchiveModel {
    ArchiveModel { checksum: Seq::empty(), url: Seq::empty(), host_os: None, host_bits: None }
}

/// An `archive` element from `pos` on, with the fields read so far in `acc`.
pub open spec fn archive_from(evs: Seq<Event>, pos: int, acc: ArchiveModel) -> Result<
    (ArchiveModel, int),
    ParseErrorModel,
>
    decreases evs.len() - pos,
{
    let len = evs.len() as int;
    if pos < 0 || pos >= len {
        Err(truncated("archive"@))
    } else {
        match evs[pos] {
            Event::StartElement { local_name, .. } => {
                let n = local_name@;
                if n == "checksum"@ || n == "url"@ {
                    match leaf_text(evs, pos + 1, n) {
                        Ok((t, p)) => if !moved_on(pos, p, len) {
                            Err(truncated("archive"@))
                        } else if n == "checksum"@ {
                            archive_from(evs, p, ArchiveModel { checksum: t, ..acc })
                        } else {
                            archive_from(evs, p, ArchiveModel { url: t, ..acc })
                        },
                        Err(e) => Err(e),
                    }
                } else if n == "host-os"@ {
                    match host_os_leaf(evs, pos + 1) {
                        Ok((o, p)) => if moved_on(pos, p, len) {
                            archive_from(evs, p, ArchiveModel { host_os: Some(o), ..acc })
                        } else {
                            Err(truncated("archive"@))
                        },
                        Err(e) => Err(e),
                    }
                } else if n == "host-bits"@ {
                    match host_bits_leaf(evs, pos + 1) {
                        Ok((b, p)) => if moved_on(pos, p, len) {
                            archive_from(evs, p, ArchiveModel { host_bits: Some(b), ..acc })
                        } else {
                            Err(truncated("archive"@))
                        },
                        Err(e) => Err(e),
                    }
                } else {
                    match skip_from(evs, pos + 1, n) {
                        Ok(p) => if moved_on(pos, p, len) {
                            archive_from(evs, p, acc)
                        } else {
                            Err(truncated("archive"@))
                        },
                        Err(e) => Err(e),
                    }
                }
            },
            Event::EndElement { local_name } => if local_name@ == "archive"@ {
                Ok((acc, pos + 1))
            } else {
                Err(ParseErrorModel::UnexpectedEnd { expected: "archive"@, found: local_name@ })
            },
            Event::Text { .. } => archive_from(evs, pos + 1, acc),
        }
    }
}

/// An `archives` element from `pos` on, with the archives read so far in `acc`.
pub open spec fn archives_from(evs: Seq<Event>, pos: int, acc: Seq<ArchiveModel>) -> Result<
    (Seq<ArchiveModel>, int),
    ParseErrorModel,
>
    decreases evs.len() - pos,
{
    let len = evs.len() as int;
    if pos < 0 || pos >= len {
        Err(truncated("archives"@))
    } else {
        match evs[pos] {
            Event::StartElement { local_name, .. } => {
                if local_name@ == "archive"@ {
                    match archive_from(evs, pos + 1, empty_archive()) {
                        Ok((a, p)) => if moved_on(pos, p, len) {
                            archives_from(evs, p, acc.push(a))
                        } else {
                            Err(truncated("archives"@))
                        },
                        Err(e) => Err(e),
                    }
                } else {
                    match skip_from(evs, pos + 1, local_name@) {
                        Ok(p) => if moved_on(pos, p, len) {
                            archives_from(evs, p, acc)
                        } else {
                            Err(truncated("archives"@))
                        },
                        Err(e) => Err(e),
                    }
                }
            },
            Event::EndElement { local_name } => if local_name@ == "archives"@ {
                Ok((acc, pos + 1))
            } else {
                Err(ParseErrorModel::UnexpectedEnd { expected: "archives"@, found: local_name@ })
            },
            Event::Text { .. } => archives_from(evs, pos + 1, acc),
        }
    }
}

/// Reads an integer element `name`, whose open came just before `start`.
pub fn parse_u32(evs: &Vec<Event>, start: usize, name: &String) -> (r: Result<(u32, usize), ParseError>)
    requires
        start <= evs.len(),
    ensures
        outcome(r, u32_leaf(evs@, start as int, name@), start as int, evs.len() as int),
{
    match parse_string(evs, start, name) {
        Ok((t, p)) => match parse_decimal(&t) {
            Some(v) => Ok((v, p)),
            None => Err(ParseError::InvalidValue { field: name.clone(), text: t }),
        },
        Err(e) => Err(e),
    }
}

/// Reads a `host-os` element, whose open came just before `start`.
pub fn parse_host_os(evs: &Vec<Event>, start: usize) -> (r: Result<(OsType, usize), ParseError>)
    requires
        start <= evs.len(),
    ensures
        outcome(r, host_os_leaf(evs@, start as int), start as int, evs.len() as int),
{
    let name = "host-os".to_owned();
    match parse_string(evs, start, &name) {
        Ok((t, p)) => {
            if text_is(&t, "linux") {
                Ok((OsType::Linux, p))
            } else if text_is(&t, "macosx") {
                Ok((OsType::Macosx, p))
            } else if text_is(&t, "windows") {
                Ok((OsType::Windows, p))
            } else {
                Err(ParseError::InvalidValue { field: name, text: t })
            }
        },
        Err(e) => Err(e),
    }
}

/// Reads a `host-bits` element, whose open came just before `start`.
pub fn parse_host_bits(evs: &Vec<Event>, start: usize) -> (r: Result<(BitSize, usize), ParseError>)
    requires
        start <= evs.len(),
    ensures
        outcome(r, host_bits_leaf(evs@, start as int), start as int, evs.len() as int),
{
    let name = "host-bits".to_owned();
    match parse_string(evs, start, &name) {
        Ok((t, p)) => {
            if text_is(&t, "32") {
                Ok((BitSize::Bit32, p))
            } else if text_is(&t, "64") {
                Ok((BitSize::Bit64, p))
            } else {
                Err(ParseError::InvalidValue { field: name, text: t })
            }
        },
        Err(e) => Err(e),
    }
}

/// Reads an `archive` element, whose open came just before `start`.
pub fn parse_archive(evs: &Vec<Event>, start: usize) -> (r: Result<(Archive, usize), ParseError>)
    requires
        start <= evs.len(),
    ensures
        outcome(r, archive_from(evs@, start as int, empty_archive()), start as int, evs.len() as int),
{
    let mut acc = Archive { checksum: String::new(), url: String::new(), host_os: None, host_bits: None };
    let mut pos = start;
    assert(acc@ == empty_archive());
    loop
        invariant
            start <= pos <= evs.len(),
            archive_from(evs@, pos as int, acc@) == archive_from(evs@, start as int, empty_archive()),
        decreases evs.len() - pos,
    {
        if pos >= evs.len() {
            return Err(ParseError::Truncated { inside: "archive".to_owned() });
        }
        match &evs[pos] {
            Event::StartElement { local_name, .. } => {
                if text_is(local_name, "checksum") || text_is(local_name, "url") {
                    match parse_string(evs, pos + 1, local_name) {
                        Ok((t, p)) => {
                            if text_is(local_name, "checksum") {
                                acc.checksum = t;
                            } else {
                                acc.url = t;
                            }
                            pos = p;
                        },
                        Err(e) => {
                            return Err(e);
                        },
                    }
                } else if text_is(local_name, "host-os") {
                    match parse_host_os(evs, pos + 1) {
                        Ok((o, p)) => {
                            acc.host_os = Some(o);
                            pos = p;
                        },
                        Err(e) => {
                            return Err(e);
                        },
                    }
                } else if text_is(local_name, "host-bits") {
                    match parse_host_bits(evs, pos + 1) {
                        Ok((b, p)) => {
                            acc.host_bits = Some(b);
                            pos = p;
                        },
                        Err(e) => {
                            return Err(e);
                        },
                    }
                } else {
                    match skip_element(evs, pos + 1, local_name) {
                        Ok(p) => {
                            pos = p;
                        },
                        Err(e) => {
                            return Err(e);
                        },
                    }
                }
            },
            Event::EndElement { local_name } => {
                if text_is(local_name, "archive") {
                    return Ok((acc, pos + 1));
                } else {
                    return Err(
                        ParseError::UnexpectedEnd {
                            expected: "archive".to_owned(),
                            found: local_name.clone(),
                        },
                    );
                }
            },
            Event::Text { .. } => {
                pos = pos + 1;
            },
        }
    }
}

/// Reads an `archives` element, whose open came just before `start`.
pub fn parse_archives(evs: &Vec<Event>, start: usize) -> (r: Result<(Vec<Archive>, usize), ParseError>)
    requires
        start <= evs.len(),
    ensures
        match r {
            Ok((v, p)) => archives_from(evs@, start as int, Seq::empty()) == Ok::<
                (Seq<ArchiveModel>, int),
                ParseErrorModel,
            >((archives_view(v@), p as int)) && start < p <= evs.len(),
            Err(e) => archives_from(evs@, start as int, Seq::empty()) == Err::<
                (Seq<ArchiveModel>, int),
                ParseErrorModel,
            >(e@),
        },
{
    let mut acc: Vec<Archive> = Vec::new();
    let mut pos = start;
    assert(archives_view(acc@) =~= Seq::<ArchiveModel>::empty());
    loop
        invariant
            start <= pos <= evs.len(),
            archives_from(evs@, pos as int, archives_view(acc@)) == archives_from(
                evs@,
                start as int,
                Seq::empty(),
            ),
        decreases evs.len() - pos,
    {
        if pos >= evs.len() {
            return Err(ParseError::Truncated { inside: "archives".to_owned() });
        }
        match &evs[pos] {
            Event::StartElement { local_name, .. } => {
                if text_is(local_name, "archive") {
                    match parse_archive(evs, pos + 1) {
                        Ok((a, p)) => {
                            let ghost before = acc@;
                            acc.push(a);
                            assert(archives_view(acc@) =~= archives_view(before).push(a@));
                            pos = p;
                        },
                        Err(e) => {
                            return Err(e);
                        },
                    }
                } else {
                    match skip_element(evs, pos + 1, local_name) {
                        Ok(p) => {
                            pos = p;
                        },
                        Err(e) => {
                            return Err(e);
                        },
                    }
                }
            },
            Event::EndElement { local_name } => {
                if text_is(local_name, "archives") {
                    return Ok((acc, pos + 1));
                } else {
                    return Err(
                        ParseError::UnexpectedEnd {
                            expected: "archives".to_owned(),
                            found: local_name.clone(),
                        },
                    );
                }
            },
            Event::Text { .. } => {
                pos = pos + 1;
            },
        }
    }
}


pub open spec fn zero_revision() -> Revision {
    Revision { major: 0, minor: None, micro: None, preview: None }
}

/// `acc` with the part that element `n` holds set to `v`.
pub open spec fn with_revision_part(acc: Revision, n: Seq<char>, v: u32) -> Revision {
    if n == "major"@ {
        Revision { major: v, ..acc }
    } else if n == "minor"@ {
        Revision { minor: Some(v), ..acc }
    } else if n == "micro"@ {
        Revision { micro: Some(v), ..acc }
    } else {
        Revision { preview: Some(v), ..acc }
    }
}

pub open spec fn is_revision_part(n: Seq<char>) -> bool {
    n == "major"@ || n == "minor"@ || n == "micro"@ || n == "preview"@
}

/// A structured `revision` element from `pos` on, with the parts read so far in `acc`.
pub open spec fn revision_from(evs: Seq<Event>, pos: int, acc: Revision) -> Result<
    (Revision, int),
    ParseErrorModel,
>
    decreases evs.len() - pos,
{
    let len = evs.len() as int;
    if pos < 0 || pos >= len {
        Err(truncated("revision"@))
    } else {
        match evs[pos] {
            Event::StartElement { local_name, .. } => {
                let n = local_name@;
                if is_revision_part(n) {
                    match u32_leaf(evs, pos + 1, n) {
                        Ok((v, p)) => if moved_on(pos, p, len) {
                            revision_from(evs, p, with_revision_part(acc, n, v))
                        } else {
                            Err(truncated("revision"@))
                        },
                        Err(e) => Err(e),
                    }
                } else {
                    match skip_from(evs, pos + 1, n) {
                        Ok(p) => if moved_on(pos, p, len) {
                            revision_from(evs, p, acc)
                        } else {
                            Err(truncated("revision"@))
                        },
                        Err(e) => Err(e),
                    }
                }
            },
            Event::EndElement { local_name } => if local_name@ == "revision"@ {
                Ok((acc, pos + 1))
            } else {
                Err(ParseErrorModel::UnexpectedEnd { expected: "revision"@, found: local_name@ })
            },
            Event::Text { .. } => revision_from(evs, pos + 1, acc),
        }
    }
}

/// Reads a structured `revision` element, whose open came just before `start`.
pub fn parse_revision(evs: &Vec<Event>, start: usize) -> (r: Result<(Revision, usize), ParseError>)
    requires
        start <= evs.len(),
    ensures
        outcome(r, revision_from(evs@, start as int, zero_revision()), start as int, evs.len() as int),
{
    let mut acc = Revision { major: 0, minor: None, micro: None, preview: None };
    let mut pos = start;
    loop
        invariant
            start <= pos <= evs.len(),
            revision_from(evs@, pos as int, acc) == revision_from(evs@, start as int, zero_revision()),
        decreases evs.len() - pos,
    {
        if pos >= evs.len() {
            return Err(ParseError::Truncated { inside: "revision".to_owned() });
        }
        match &evs[pos] {
            Event::StartElement { local_name, .. } => {
                if text_is(local_name, "major") || text_is(local_name, "minor") || text_is(
                    local_name,
                    "micro",
                ) || text_is(local_name, "preview") {
                    match parse_u32(evs, pos + 1, local_name) {
                        Ok((v, p)) => {
                            if text_is(local_name, "major") {
                                acc.major = v;
                            } else if text_is(local_name, "minor") {
                                acc.minor = Some(v);
                            } else if text_is(local_name, "micro") {
                                acc.micro = Some(v);
                            } else {
                                acc.preview = Some(v);
                            }
                            pos = p;
                        },
                        Err(e) => {
                            return Err(e);
                        },
                    }
                } else {
                    match skip_element(evs, pos + 1, local_name) {
                        Ok(p) => {
                            pos = p;
                        },
                        Err(e) => {
                            return Err(e);
                        },
                    }
                }
            },
            Event::EndElement { local_name } => {
                if text_is(local_name, "revision") {
                    return Ok((acc, pos + 1));
                } else {
                    return Err(
                        ParseError::UnexpectedEnd {
                            expected: "revision".to_owned(),
                            found: local_name.clone(),
                        },
                    );
                }
            },
            Event::Text { .. } => {
                pos = pos + 1;
            },
        }
    }
}

/// The five kinds of installable component.
#[derive(Debug, Clone, Copy, PartialEq, Eq, Structural)]
pub enum ComponentKind {
    Ndk,
    Platform,
    Source,
    BuildTool,
    PlatformTool,
}

impl ComponentKind {
    pub open spec fn spec_tag(self) -> Seq<char> {
        match self {
            ComponentKind::Ndk => "ndk"@,
            ComponentKind::Platform => "platform"@,
            ComponentKind::Source => "source"@,
            ComponentKind::BuildTool => "build-tool"@,
            ComponentKind::PlatformTool => "platform-tool"@,
        }
    }

    /// Name of the element that holds a component of this kind.
    pub fn tag(self) -> (r: &'static str)
        ensures
            r@ == self.spec_tag(),
    {
        match self {
            ComponentKind::Ndk => "ndk",
            ComponentKind::Platform => "platform",
            ComponentKind::Source => "source",
            ComponentKind::BuildTool => "build-tool",
            ComponentKind::PlatformTool => "platform-tool",
        }
    }

    /// Components of this kind carry an `api-level`.
    pub open spec fn has_api_level(self) -> bool {
        self is Platform || self is Source
    }

    /// Components of this kind carry a structured revision rather than a bare integer.
    pub open spec fn has_full_revision(self) -> bool {
        self is BuildTool || self is PlatformTool
    }
}

/// Everything that a component element can carry.
pub struct ComponentModel {
    pub api_level: u32,
    pub revision: u32,
    pub full_revision: Revision,
    pub uses_license: Option<Seq<char>>,
    pub archives: Seq<ArchiveModel>,
}

pub open spec fn empty_component() -> ComponentModel {
    ComponentModel {
        api_level: 0,
        revision: 0,
        full_revision: zero_revision(),
        uses_license: None,
        archives: Seq::empty(),
    }
}

pub open spec fn opt_view(o: Option<String>) -> Option<Seq<char>> {
    match o {
        Some(s) => Some(s@),
        None => None,
    }
}

/// A component element of `kind` from `pos` on, with the fields read so far in `acc`.
pub open spec fn component_from(
    evs: Seq<Event>,
    pos: int,
    kind: ComponentKind,
    acc: ComponentModel,
) -> Result<(ComponentModel, int), ParseErrorModel>
    decreases evs.len() - pos,
{
    let len = evs.len() as int;
    let tag = kind.spec_tag();
    if pos < 0 || pos >= len {
        Err(truncated(tag))
    } else {
        match evs[pos] {
            Event::StartElement { local_name, attributes } => {
                let n = local_name@;
                if n == "uses-license"@ {
                    match attribute_value(attributes@, "ref"@) {
                        Some(r) => match skip_from(evs, pos + 1, n) {
                            Ok(p) => if moved_on(pos, p, len) {
                                component_from(
                                    evs,
                                    p,
                                    kind,
                                    ComponentModel { uses_license: Some(r), ..acc },
                                )
                            } else {
                                Err(truncated(tag))
                            },
                            Err(e) => Err(e),
                        },
                        None => Err(
                            ParseErrorModel::MissingAttribute { element: n, attribute: "ref"@ },
                        ),
                    }
                } else if n == "api-level"@ && kind.has_api_level() {
                    match u32_leaf(evs, pos + 1, n) {
                        Ok((v, p)) => if moved_on(pos, p, len) {
                            component_from(evs, p, kind, ComponentModel { api_level: v, ..acc })
                        } else {
                            Err(truncated(tag))
                        },
                        Err(e) => Err(e),
                    }
                } else if n == "revision"@ && kind.has_full_revision() {
                    match revision_from(evs, pos + 1, zero_revision()) {
                        Ok((v, p)) => if moved_on(pos, p, len) {
                            component_from(evs, p, kind, ComponentModel { full_revision: v, ..acc })
                        } else {
                            Err(truncated(tag))
                        },
                        Err(e) => Err(e),
                    }
                } else if n == "revision"@ {
                    match u32_leaf(evs, pos + 1, n) {
                        Ok((v, p)) => if moved_on(pos, p, len) {
                            component_from(evs, p, kind, ComponentModel { revision: v, ..acc })
                        } else {
                            Err(truncated(tag))
                        },
                        Err(e) => Err(e),
                    }
                } else if n == "archives"@ {
                    match archives_from(evs, pos + 1, Seq::empty()) {
                        Ok((a, p)) => if moved_on(pos, p, len) {
                            component_from(evs, p, kind, ComponentModel { archives: a, ..acc })
                        } else {
                            Err(truncated(tag))
                        },
                        Err(e) => Err(e),
                    }
                } else {
                    match skip_from(evs, pos + 1, n) {
                        Ok(p) => if moved_on(pos, p, len) {
                            component_from(evs, p, kind, acc)
                        } else {
                            Err(truncated(tag))
                        },
                        Err(e) => Err(e),
                    }
                }
            },
            Event::EndElement { local_name } => if local_name@ == tag {
                Ok((acc, pos + 1))
            } else {
                Err(ParseErrorModel::UnexpectedEnd { expected: tag, found: local_name@ })
            },
            Event::Text { .. } => component_from(evs, pos + 1, kind, acc),
        }
    }
}

/// The fields of a component element while it is being read.
struct ComponentFields {
    api_level: u32,
    revision: u32,
    full_revision: Revision,
    uses_license: Option<String>,
    archives: Vec<Archive>,
}

impl View for ComponentFields {
    type V = ComponentModel;

    closed spec fn view(&self) -> ComponentModel {
        ComponentModel {
            api_level: self.api_level,
            revision: self.revision,
            full_revision: self.full_revision,
            uses_license: opt_view(self.uses_license),
            archives: archives_view(self.archives@),
        }
    }
}

/// Reads the element of a component of `kind`, whose open came just before `start`.
fn parse_component(evs: &Vec<Event>, start: usize, kind: ComponentKind) -> (r: Result<
    (ComponentFields, usize),
    ParseError,
>)
    requires
        start <= evs.len(),
    ensures
        outcome(
            r,
            component_from(evs@, start as int, kind, empty_component()),
            start as int,
            evs.len() as int,
        ),
{
    let mut acc = ComponentFields {
        api_level: 0,
        revision: 0,
        full_revision: Revision { major: 0, minor: None, micro: None, preview: None },
        uses_license: None,
        archives: Vec::new(),
    };
    assert(acc@ == empty_component()) by {
        assert(archives_view(acc.archives@) =~= Seq::<ArchiveModel>::empty());
    }
    let tag = kind.tag();
    let api = match kind {
        ComponentKind::Platform | ComponentKind::Source => true,
        _ => false,
    };
    let full = match kind {
        ComponentKind::BuildTool | ComponentKind::PlatformTool => true,
        _ => false,
    };
    let mut pos = start;
    loop
        invariant
            start <= pos <= evs.len(),
            tag@ == kind.spec_tag(),
            api == kind.has_api_level(),
            full == kind.has_full_revision(),
            component_from(evs@, pos as int, kind, acc@) == component_from(
                evs@,
                start as int,
                kind,
                empty_component(),
            ),
        decreases evs.len() - pos,
    {
        if pos >= evs.len() {
            return Err(ParseError::Truncated { inside: tag.to_owned() });
        }
        match &evs[pos] {
            Event::StartElement { local_name, attributes } => {
                if text_is(local_name, "uses-license") {
                    match find_attribute(attributes, "ref") {
                        Some(r) => {
                            match skip_element(evs, pos + 1, local_name) {
                                Ok(p) => {
                                    acc.uses_license = Some(r.clone());
                                    pos = p;
                                },
                                Err(e) => {
                                    return Err(e);
                                },
                            }
                        },
                        None => {
                            return Err(
                                ParseError::MissingAttribute {
                                    element: local_name.clone(),
                                    attribute: "ref".to_owned(),
                                },
                            );
                        },
                    }
                } else if api && text_is(local_name, "api-level") {
                    match parse_u32(evs, pos + 1, local_name) {
                        Ok((v, p)) => {
                            acc.api_level = v;
                            pos = p;
                        },
                        Err(e) => {
                            return Err(e);
                        },
                    }
                } else if full && text_is(local_name, "revision") {
                    match parse_revision(evs, pos + 1) {
                        Ok((v, p)) => {
                            acc.full_revision = v;
                            pos = p;
                        },
                        Err(e) => {
                            return Err(e);
                        },
                    }
                } else if text_is(local_name, "revision") {
                    match parse_u32(evs, pos + 1, local_name) {
                        Ok((v, p)) => {
                            acc.revision = v;
                            pos = p;
                        },
                        Err(e) => {
                            return Err(e);
                        },
                    }
                } else if text_is(local_name, "archives") {
                    match parse_archives(evs, pos + 1) {
                        Ok((a, p)) => {
                            acc.archives = a;
                            pos = p;
                        },
                        Err(e) => {
                            return Err(e);
                        },
                    }
                } else {
                    match skip_element(evs, pos + 1, local_name) {
                        Ok(p) => {
                            pos = p;
                        },
                        Err(e) => {
                            return Err(e);
                        },
                    }
                }
            },
            Event::EndElement { local_name } => {
                if text_is(local_name, tag) {
                    return Ok((acc, pos + 1));
                } else {
                    return Err(
                        ParseError::UnexpectedEnd { expected: tag.to_owned(), found: local_name.clone() },
                    );
                }
            },
            Event::Text { .. } => {
                pos = pos + 1;
            },
        }
    }
}


/// A component read from a `kind` element that starts just after the open at `start - 1`.
pub open spec fn parsed_component(evs: Seq<Event>, start: int, kind: ComponentKind) -> Result<
    (ComponentModel, int),
    ParseErrorModel,
> {
    component_from(evs, start, kind, empty_component())
}

/// An `ndk` component.
#[derive(Debug)]
pub struct Ndk {
    pub revision: u32,
    pub uses_license: Option<String>,
    pub archives: Vec<Archive>,
}

impl Ndk {
    /// This value holds what `m` says of an `ndk` element.
    pub open spec fn models(&self, m: ComponentModel) -> bool {
        self.revision == m.revision
        && opt_view(self.uses_license) == m.uses_license
        && archives_view(self.archives@) == m.archives
    }
}

/// Reads an `ndk` element, whose open came just before `start`.
pub fn parse_ndk(evs: &Vec<Event>, start: usize) -> (r: Result<(Ndk, usize), ParseError>)
    requires
        start <= evs.len(),
    ensures
        match r {
            Ok((c, p)) => parsed_component(evs@, start as int, ComponentKind::Ndk) is Ok
                && c.models(parsed_component(evs@, start as int, ComponentKind::Ndk)->Ok_0.0)
                && parsed_component(evs@, start as int, ComponentKind::Ndk)->Ok_0.1 == p
                && start < p <= evs.len(),
            Err(e) => parsed_component(evs@, start as int, ComponentKind::Ndk) == Err::<
                (ComponentModel, int),
                ParseErrorModel,
            >(e@),
        },
{
    match parse_component(evs, start, ComponentKind::Ndk) {
        Ok((f, p)) => Ok(
            (
                Ndk {
                    revision: f.revision,
                    uses_license: f.uses_license,
                    archives: f.archives,
                },
                p,
            ),
        ),
        Err(e) => Err(e),
    }
}

/// A `platform` component.
#[derive(Debug)]
pub struct Platform {
    pub api_level: u32,
    pub revision: u32,
    pub uses_license: Option<String>,
    pub archives: Vec<Archive>,
}

impl Platform {
    /// This value holds what `m` says of a `platform` element.
    pub open spec fn models(&self, m: ComponentModel) -> bool {
        self.api_level == m.api_level
        && self.revision == m.revision
        && opt_view(self.uses_license) == m.uses_license
        && archives_view(self.archives@) == m.archives
    }
}

/// Reads a `platform` element, whose open came just before `start`.
pub fn parse_platform(evs: &Vec<Event>, start: usize) -> (r: Result<(Platform, usize), ParseError>)
    requires
        start <= evs.len(),
    ensures
        match r {
            Ok((c, p)) => parsed_component(evs@, start as int, ComponentKind::Platform) is Ok
                && c.models(parsed_component(evs@, start as int, ComponentKind::Platform)->Ok_0.0)
                && parsed_component(evs@, start as int, ComponentKind::Platform)->Ok_0.1 == p
                && start < p <= evs.len(),
            Err(e) => parsed_component(evs@, start as int, ComponentKind::Platform) == Err::<
                (ComponentModel, int),
                ParseErrorModel,
            >(e@),
        },
{
    match parse_component(evs, start, ComponentKind::Platform) {
        Ok((f, p)) => Ok(
            (
                Platform {
                    api_level: f.api_level,
                    revision: f.revision,
                    uses_license: f.uses_license,
                    archives: f.archives,
                },
                p,
            ),
        ),
        Err(e) => Err(e),
    }
}

/// A `source` component.
#[derive(Debug)]
pub struct Source {
    pub api_level: u32,
    pub revision: u32,
    pub uses_license: Option<String>,
    pub archives: Vec<Archive>,
}

impl Source {
    /// This value holds what `m` says of a `source` element.
    pub open spec fn models(&self, m: ComponentModel) -> bool {
        self.api_level == m.api_level
        && self.revision == m.revision
        && opt_view(self.uses_license) == m.uses_license
        && archives_view(self.archives@) == m.archives
    }
}

/// Reads a `source` element, whose open came just before `start`.
pub fn parse_source(evs: &Vec<Event>, start: usize) -> (r: Result<(Source, usize), ParseError>)
    requires
        start <= evs.len(),
    ensures
        match r {
            Ok((c, p)) => parsed_component(evs@, start as int, ComponentKind::Source) is Ok
                && c.models(parsed_component(evs@, start as int, ComponentKind::Source)->Ok_0.0)
                && parsed_component(evs@, start as int, ComponentKind::Source)->Ok_0.1 == p
                && start < p <= evs.len(),
            Err(e) => parsed_component(evs@, start as int, ComponentKind::Source) == Err::<
                (ComponentModel, int),
                ParseErrorModel,
            >(e@),
        },
{
    match parse_component(evs, start, ComponentKind::Source) {
        Ok((f, p)) => Ok(
            (
                Source {
                    api_level: f.api_level,
                    revision: f.revision,
                    uses_license: f.uses_license,
                    archives: f.archives,
                },
                p,
            ),
        ),
        Err(e) => Err(e),
    }
}

/// A `build-tool` component.
#[derive(Debug)]
pub struct BuildTool {
    pub revision: Revision,
    pub uses_license: Option<String>,
    pub archives: Vec<Archive>,
}

impl BuildTool {
    /// This value holds what `m` says of a `build-tool` element.
    pub open spec fn models(&self, m: ComponentModel) -> bool {
        self.revision == m.full_revision
        && opt_view(self.uses_license) == m.uses_license
        && archives_view(self.archives@) == m.archives
    }
}

/// Reads a `build-tool` element, whose open came just before `start`.
pub fn parse_build_tool(evs: &Vec<Event>, start: usize) -> (r: Result<(BuildTool, usize), ParseError>)
    requires
        start <= evs.len(),
    ensures
        match r {
            Ok((c, p)) => parsed_component(evs@, start as int, ComponentKind::BuildTool) is Ok
                && c.models(parsed_component(evs@, start as int, ComponentKind::BuildTool)->Ok_0.0)
                && parsed_component(evs@, start as int, ComponentKind::BuildTool)->Ok_0.1 == p
                && start < p <= evs.len(),
            Err(e) => parsed_component(evs@, start as int, ComponentKind::BuildTool) == Err::<
                (ComponentModel, int),
                ParseErrorModel,
            >(e@),
        },
{
    match parse_component(evs, start, ComponentKind::BuildTool) {
        Ok((f, p)) => Ok(
            (
                BuildTool {
                    revision: f.full_revision,
                    uses_license: f.uses_license,
                    archives: f.archives,
                },
                p,
            ),
        ),
        Err(e) => Err(e),
    }
}

/// A `platform-tool` component.
#[derive(Debug)]
pub struct PlatformTool {
    pub revision: Revision,
    pub uses_license: Option<String>,
    pub archives: Vec<Archive>,
}

impl PlatformTool {
    /// This value holds what `m` says of a `platform-tool` element.
    pub open spec fn models(&self, m: ComponentModel) -> bool {
        self.revision == m.full_revision
        && opt_view(self.uses_license) == m.uses_license
        && archives_view(self.archives@) == m.archives
    }
}

/// Reads a `platform-tool` element, whose open came just before `start`.
pub fn parse_platform_tool(evs: &Vec<Event>, start: usize) -> (r: Result<(PlatformTool, usize), ParseError>)
    requires
        start <= evs.len(),
    ensures
        match r {
            Ok((c, p)) => parsed_component(evs@, start as int, ComponentKind::PlatformTool) is Ok
                && c.models(parsed_component(evs@, start as int, ComponentKind::PlatformTool)->Ok_0.0)
                && parsed_component(evs@, start as int, ComponentKind::PlatformTool)->Ok_0.1 == p
                && start < p <= evs.len(),
            Err(e) => parsed_component(evs@, start as int, ComponentKind::PlatformTool) == Err::<
                (ComponentModel, int),
                ParseErrorModel,
            >(e@),
        },
{
    match parse_component(evs, start, ComponentKind::PlatformTool) {
        Ok((f, p)) => Ok(
            (
                PlatformTool {
                    revision: f.full_revision,
                    uses_license: f.uses_license,
                    archives: f.archives,
                },
                p,
            ),
        ),
        Err(e) => Err(e),
    }
}


/// A license text under its id.
#[derive(Debug)]
pub struct License {
    pub id: String,
    pub text: String,
}

pub open spec fn licenses_view(v: Seq<License>) -> Seq<(Seq<char>, Seq<char>)> {
    v.map_values(|l: License| (l.id@, l.text@))
}

pub open spec fn has_license(s: Seq<(Seq<char>, Seq<char>)>, id: Seq<char>) -> bool {
    exists|i: int| 0 <= i < s.len() && #[trigger] s[i].0 == id
}

/// Ids occur at most once.
pub open spec fn license_ids_unique(s: Seq<(Seq<char>, Seq<char>)>) -> bool {
    forall|i: int, j: int| 0 <= i < j < s.len() ==> #[trigger] s[i].0 != #[trigger] s[j].0
}

/// The licenses `s` after `text` is recorded under `id`: an entry with that id takes the
/// new text in place, else the pair is appended.
pub open spec fn license_insert(s: Seq<(Seq<char>, Seq<char>)>, id: Seq<char>, text: Seq<char>) -> Seq<
    (Seq<char>, Seq<char>),
> {
    if has_license(s, id) {
        s.map_values(|e: (Seq<char>, Seq<char>)| if e.0 == id { (id, text) } else { e })
    } else {
        s.push((id, text))
    }
}

/// The text recorded under `id`, if any.
pub open spec fn license_text_of(s: Seq<(Seq<char>, Seq<char>)>, id: Seq<char>) -> Option<Seq<char>> {
    if has_license(s, id) {
        Some(s[choose|i: int| 0 <= i < s.len() && #[trigger] s[i].0 == id].1)
    } else {
        None
    }
}

/// Records `text` under `id`; a text recorded earlier under that id is replaced.
pub fn insert_license(licenses: &mut Vec<License>, id: String, text: String)
    ensures
        licenses_view(final(licenses)@) == license_insert(licenses_view(old(licenses)@), id@, text@),
{
    let ghost s = licenses_view(licenses@);
    let n = licenses.len();
    let mut found = false;
    let mut i: usize = 0;
    while i < n
        invariant
            n == licenses.len(),
            s.len() == n,
            i <= n,
            found == (exists|j: int| 0 <= j < i && #[trigger] s[j].0 == id@),
            forall|j: int|
                0 <= j < i ==> #[trigger] licenses_view(licenses@)[j] == (if s[j].0 == id@ {
                    (id@, text@)
                } else {
                    s[j]
                }),
            forall|j: int| i <= j < n ==> #[trigger] licenses_view(licenses@)[j] == s[j],
        decreases n - i,
    {
        let ghost before = licenses@;
        assert(licenses_view(before)[i as int] == s[i as int]);
        assert(s[i as int] == (before[i as int].id@, before[i as int].text@));
        if licenses[i].id == id {
            licenses.set(i, License { id: id.clone(), text: text.clone() });
            found = true;
        }
        assert forall|j: int| 0 <= j < n && j != i implies #[trigger] licenses_view(licenses@)[j]
            == licenses_view(before)[j] by {
            assert(licenses@[j] == before[j]);
        }
        assert(licenses_view(licenses@)[i as int] == (if s[i as int].0 == id@ {
            (id@, text@)
        } else {
            s[i as int]
        }));
        i = i + 1;
    }
    if found {
        assert(has_license(s, id@));
        assert(licenses_view(licenses@) =~= license_insert(s, id@, text@));
    } else {
        let ghost before = licenses@;
        licenses.push(License { id, text });
        assert(!has_license(s, id@));
        assert forall|j: int| 0 <= j < n implies #[trigger] licenses_view(licenses@)[j] == s[j] by {
            assert(licenses@[j] == before[j]);
            assert(licenses_view(before)[j] == (if s[j].0 == id@ {
                (id@, text@)
            } else {
                s[j]
            }));
        }
        assert(licenses_view(licenses@) =~= license_insert(s, id@, text@));
    }
}

/// What a manifest holds.
pub struct RepositoryModel {
    pub licenses: Seq<(Seq<char>, Seq<char>)>,
    pub ndks: Seq<ComponentModel>,
    pub platforms: Seq<ComponentModel>,
    pub sources: Seq<ComponentModel>,
    pub build_tools: Seq<ComponentModel>,
    pub platform_tools: Seq<ComponentModel>,
}

pub open spec fn empty_repository() -> RepositoryModel {
    RepositoryModel {
        licenses: Seq::empty(),
        ndks: Seq::empty(),
        platforms: Seq::empty(),
        sources: Seq::empty(),
        build_tools: Seq::empty(),
        platform_tools: Seq::empty(),
    }
}

/// The kind of component that an element of this name holds, if any.
pub open spec fn kind_named(n: Seq<char>) -> Option<ComponentKind> {
    if n == "ndk"@ {
        Some(ComponentKind::Ndk)
    } else if n == "platform"@ {
        Some(ComponentKind::Platform)
    } else if n == "source"@ {
        Some(ComponentKind::Source)
    } else if n == "build-tool"@ {
        Some(ComponentKind::BuildTool)
    } else if n == "platform-tool"@ {
        Some(ComponentKind::PlatformTool)
    } else {
        None
    }
}

/// `acc` with `c` appended to the components of `kind`.
pub open spec fn add_component(acc: RepositoryModel, kind: ComponentKind, c: ComponentModel) -> RepositoryModel {
    match kind {
        ComponentKind::Ndk => RepositoryModel { ndks: acc.ndks.push(c), ..acc },
        ComponentKind::Platform => RepositoryModel { platforms: acc.platforms.push(c), ..acc },
        ComponentKind::Source => RepositoryModel { sources: acc.sources.push(c), ..acc },
        ComponentKind::BuildTool => RepositoryModel { build_tools: acc.build_tools.push(c), ..acc },
        ComponentKind::PlatformTool => RepositoryModel {
            platform_tools: acc.platform_tools.push(c),
            ..acc
        },
    }
}

/// The `sdk-repository` element from `pos` on, with what was read so far in `acc`.
pub open spec fn repository_from(evs: Seq<Event>, pos: int, acc: RepositoryModel) -> Result<
    (RepositoryModel, int),
    ParseErrorModel,
>
    decreases evs.len() - pos,
{
    let len = evs.len() as int;
    if pos < 0 || pos >= len {
        Err(truncated("sdk-repository"@))
    } else {
        match evs[pos] {
            Event::StartElement { local_name, attributes } => {
                let n = local_name@;
                if n == "license"@ {
                    match leaf_text(evs, pos + 1, n) {
                        Ok((t, p)) => if !moved_on(pos, p, len) {
                            Err(truncated("sdk-repository"@))
                        } else {
                            match attribute_value(attributes@, "id"@) {
                                Some(id) => repository_from(
                                    evs,
                                    p,
                                    RepositoryModel {
                                        licenses: license_insert(acc.licenses, id, t),
                                        ..acc
                                    },
                                ),
                                None => Err(
                                    ParseErrorModel::MissingAttribute {
                                        element: n,
                                        attribute: "id"@,
                                    },
                                ),
                            }
                        },
                        Err(e) => Err(e),
                    }
                } else {
                    match kind_named(n) {
                        Some(k) => match component_from(evs, pos + 1, k, empty_component()) {
                            Ok((c, p)) => if moved_on(pos, p, len) {
                                repository_from(evs, p, add_component(acc, k, c))
                            } else {
                                Err(truncated("sdk-repository"@))
                            },
                            Err(e) => Err(e),
                        },
                        None => match skip_from(evs, pos + 1, n) {
                            Ok(p) => if moved_on(pos, p, len) {
                                repository_from(evs, p, acc)
                            } else {
                                Err(truncated("sdk-repository"@))
                            },
                            Err(e) => Err(e),
                        },
                    }
                }
            },
            Event::EndElement { local_name } => if local_name@ == "sdk-repository"@ {
                Ok((acc, pos + 1))
            } else {
                Err(
                    ParseErrorModel::UnexpectedEnd {
                        expected: "sdk-repository"@,
                        found: local_name@,
                    },
                )
            },
            Event::Text { .. } => repository_from(evs, pos + 1, acc),
        }
    }
}

pub open spec fn without_position(r: Result<(RepositoryModel, int), ParseErrorModel>) -> Result<
    RepositoryModel,
    ParseErrorModel,
> {
    match r {
        Ok((m, _)) => Ok(m),
        Err(e) => Err(e),
    }
}

/// The manifest that an event stream describes: the stream must open with
/// `sdk-repository`, and is read up to that element's close.
pub open spec fn sdk_repository_of(evs: Seq<Event>) -> Result<RepositoryModel, ParseErrorModel> {
    if evs.len() == 0 {
        Err(ParseErrorModel::MissingRoot)
    } else {
        match evs[0] {
            Event::StartElement { local_name, .. } => if local_name@ == "sdk-repository"@ {
                without_position(repository_from(evs, 1, empty_repository()))
            } else {
                Err(ParseErrorModel::MissingRoot)
            },
            _ => Err(ParseErrorModel::MissingRoot),
        }
    }
}

/// A parsed manifest.
#[derive(Debug)]
pub struct SdkRepository {
    pub licenses: Vec<License>,
    pub ndks: Vec<Ndk>,
    pub platforms: Vec<Platform>,
    pub sources: Vec<Source>,
    pub build_tools: Vec<BuildTool>,
    pub platform_tools: Vec<PlatformTool>,
}

impl SdkRepository {
    /// The text of the license with this id, if the manifest has one.
    pub fn license_text(&self, id: &str) -> (r: Option<&String>)
        requires
            license_ids_unique(licenses_view(self.licenses@)),
        ensures
            match r {
                Some(t) => license_text_of(licenses_view(self.licenses@), id@) == Some(t@),
                None => license_text_of(licenses_view(self.licenses@), id@) is None,
            },
    {
        let ghost s = licenses_view(self.licenses@);
        let wanted = id.to_owned();
        let mut i: usize = 0;
        while i < self.licenses.len()
            invariant
                i <= self.licenses.len(),
                s == licenses_view(self.licenses@),
                license_ids_unique(s),
                wanted@ == id@,
                forall|j: int| 0 <= j < i ==> #[trigger] s[j].0 != id@,
            decreases self.licenses.len() - i,
        {
            assert(s[i as int] == (self.licenses@[i as int].id@, self.licenses@[i as int].text@));
            if self.licenses[i].id == wanted {
                proof {
                    assert(s.len() == self.licenses@.len());
                    assert(s[i as int].0 == id@);
                    assert(has_license(s, id@));
                    let c = choose|k: int| 0 <= k < s.len() && #[trigger] s[k].0 == id@;
                    if c < i {
                        assert(s[c].0 != id@);
                    } else if c > i {
                        assert(s[i as int].0 != s[c].0);
                    }
                }
                return Some(&self.licenses[i].text);
            }
            i = i + 1;
        }
        None
    }
}

/// `r` holds what `m` says, component by component and in order.
pub open spec fn repository_models(r: SdkRepository, m: RepositoryModel) -> bool {
    &&& licenses_view(r.licenses@) == m.licenses
    &&& r.ndks@.len() == m.ndks.len()
    &&& forall|i: int| 0 <= i < m.ndks.len() ==> (#[trigger] r.ndks@[i]).models(m.ndks[i])
    &&& r.platforms@.len() == m.platforms.len()
    &&& forall|i: int|
        0 <= i < m.platforms.len() ==> (#[trigger] r.platforms@[i]).models(m.platforms[i])
    &&& r.sources@.len() == m.sources.len()
    &&& forall|i: int| 0 <= i < m.sources.len() ==> (#[trigger] r.sources@[i]).models(m.sources[i])
    &&& r.build_tools@.len() == m.build_tools.len()
    &&& forall|i: int|
        0 <= i < m.build_tools.len() ==> (#[trigger] r.build_tools@[i]).models(m.build_tools[i])
    &&& r.platform_tools@.len() == m.platform_tools.len()
    &&& forall|i: int|
        0 <= i < m.platform_tools.len() ==> (#[trigger] r.platform_tools@[i]).models(
            m.platform_tools[i],
        )
}

/// The kind of component that an element called `n` holds.
fn kind_for(n: &String) -> (r: Option<ComponentKind>)
    ensures
        r == kind_named(n@),
{
    if text_is(n, "ndk") {
        Some(ComponentKind::Ndk)
    } else if text_is(n, "platform") {
        Some(ComponentKind::Platform)
    } else if text_is(n, "source") {
        Some(ComponentKind::Source)
    } else if text_is(n, "build-tool") {
        Some(ComponentKind::BuildTool)
    } else if text_is(n, "platform-tool") {
        Some(ComponentKind::PlatformTool)
    } else {
        None
    }
}

/// Reads a whole manifest from its event stream.
pub fn parse_sdk_repository(evs: &Vec<Event>) -> (r: Result<SdkRepository, ParseError>)
    ensures
        match r {
            Ok(repo) => sdk_repository_of(evs@) is Ok && repository_models(
                repo,
                sdk_repository_of(evs@)->Ok_0,
            ) && license_ids_unique(licenses_view(repo.licenses@)),
            Err(e) => sdk_repository_of(evs@) == Err::<RepositoryModel, ParseErrorModel>(e@),
        },
{
    if evs.len() == 0 {
        return Err(ParseError::MissingRoot);
    }
    match &evs[0] {
        Event::StartElement { local_name, .. } => {
            if !text_is(local_name, "sdk-repository") {
                return Err(ParseError::MissingRoot);
            }
        },
        _ => {
            return Err(ParseError::MissingRoot);
        },
    }
    let mut acc = SdkRepository {
        licenses: Vec::new(),
        ndks: Vec::new(),
        platforms: Vec::new(),
        sources: Vec::new(),
        build_tools: Vec::new(),
        platform_tools: Vec::new(),
    };
    let ghost mut model = empty_repository();
    assert(licenses_view(acc.licenses@) =~= Seq::<(Seq<char>, Seq<char>)>::empty());
    let mut pos: usize = 1;
    loop
        invariant
            1 <= pos <= evs.len(),
            sdk_repository_of(evs@) == without_position(
                repository_from(evs@, 1, empty_repository()),
            ),
            repository_models(acc, model),
            license_ids_unique(model.licenses),
            repository_from(evs@, pos as int, model) == repository_from(
                evs@,
                1,
                empty_repository(),
            ),
        decreases evs.len() - pos,
    {
        if pos >= evs.len() {
            return Err(ParseError::Truncated { inside: "sdk-repository".to_owned() });
        }
        match &evs[pos] {
            Event::StartElement { local_name, attributes } => {
                if text_is(local_name, "license") {
                    match parse_string(evs, pos + 1, local_name) {
                        Ok((t, p)) => {
                            match find_attribute(attributes, "id") {
                                Some(id) => {
                                    proof {
                                        lemma_license_last_wins(model.licenses, id@, t@);
                                        model = RepositoryModel {
                                            licenses: license_insert(model.licenses, id@, t@),
                                            ..model
                                        };
                                    }
                                    insert_license(&mut acc.licenses, id.clone(), t);
                                    pos = p;
                                },
                                None => {
                                    return Err(
                                        ParseError::MissingAttribute {
                                            element: local_name.clone(),
                                            attribute: "id".to_owned(),
                                        },
                                    );
                                },
                            }
                        },
                        Err(e) => {
                            return Err(e);
                        },
                    }
                } else {
                    match kind_for(local_name) {
                        Some(ComponentKind::Ndk) => match parse_ndk(evs, pos + 1) {
                            Ok((c, p)) => {
                                proof {
                                    model = add_component(
                                        model,
                                        ComponentKind::Ndk,
                                        parsed_component(evs@, pos + 1, ComponentKind::Ndk)->Ok_0.0,
                                    );
                                }
                                acc.ndks.push(c);
                                pos = p;
                            },
                            Err(e) => {
                                return Err(e);
                            },
                        },
                        Some(ComponentKind::Platform) => match parse_platform(evs, pos + 1) {
                            Ok((c, p)) => {
                                proof {
                                    model = add_component(
                                        model,
                                        ComponentKind::Platform,
                                        parsed_component(evs@, pos + 1, ComponentKind::Platform)->Ok_0.0,
                                    );
                                }
                                acc.platforms.push(c);
                                pos = p;
                            },
                            Err(e) => {
                                return Err(e);
                            },
                        },
                        Some(ComponentKind::Source) => match parse_source(evs, pos + 1) {
                            Ok((c, p)) => {
                                proof {
                                    model = add_component(
                                        model,
                                        ComponentKind::Source,
                                        parsed_component(evs@, pos + 1, ComponentKind::Source)->Ok_0.0,
                                    );
                                }
                                acc.sources.push(c);
                                pos = p;
                            },
                            Err(e) => {
                                return Err(e);
                            },
                        },
                        Some(ComponentKind::BuildTool) => match parse_build_tool(evs, pos + 1) {
                            Ok((c, p)) => {
                                proof {
                                    model = add_component(
                                        model,
                                        ComponentKind::BuildTool,
                                        parsed_component(evs@, pos + 1, ComponentKind::BuildTool)->Ok_0.0,
                                    );
                                }
                                acc.build_tools.push(c);
                                pos = p;
                            },
                            Err(e) => {
                                return Err(e);
                            },
                        },
                        Some(ComponentKind::PlatformTool) => match parse_platform_tool(evs, pos + 1) {
                            Ok((c, p)) => {
                                proof {
                                    model = add_component(
                                        model,
                                        ComponentKind::PlatformTool,
                                        parsed_component(evs@, pos + 1, ComponentKind::PlatformTool)->Ok_0.0,
                                    );
                                }
                                acc.platform_tools.push(c);
                                pos = p;
                            },
                            Err(e) => {
                                return Err(e);
                            },
                        },
                        None => match skip_element(evs, pos + 1, local_name) {
                            Ok(p) => {
                                pos = p;
                            },
                            Err(e) => {
                                return Err(e);
                            },
                        },
                    }
                }
            },
            Event::EndElement { local_name } => {
                if text_is(local_name, "sdk-repository") {
                    return Ok(acc);
                } else {
                    return Err(
                        ParseError::UnexpectedEnd {
                            expected: "sdk-repository".to_owned(),
                            found: local_name.clone(),
                        },
                    );
                }
            },
            Event::Text { .. } => {
                pos = pos + 1;
            },
        }
    }
}

} // verus!
