//! The `Link` header (RFC 5988): its `link-value` list, relation types and
//! media descriptors, with a verified parser and serializer.
//!
//! ```plain
//! link-value     = "<" URI-Reference ">" *( ";" link-param )
//! link-param     = ( ( "rel" "=" relation-types )
//!                | ( "anchor" "=" <"> URI-Reference <"> )
//!                | ( "rev" "=" relation-types )
//!                | ( "hreflang" "=" Language-Tag )
//!                | ( "media" "=" ( MediaDesc | ( <"> MediaDesc <"> ) ) )
//!                | ( "title" "=" quoted-string )
//!                | ( "title*" "=" ext-value )
//!                | ( "type" "=" ( media-type | quoted-mt ) )
//!                | ( link-extension ) )
//! ```

use vstd::prelude::*;

use crate::error::{HttpError, HttpResult};

verus! {

// ---------------------------------------------------------------------------
// Character and string utilities
// ---------------------------------------------------------------------------

/// The code point of `c` with an ASCII capital letter folded to lower case.
pub open spec fn lower_code(c: char) -> int {
    if 65 <= c as int <= 90 {
        c as int + 32
    } else {
        c as int
    }
}

/// ASCII-case-insensitive equality of two character sequences.
pub open spec fn eq_ci_seq(a: Seq<char>, b: Seq<char>) -> bool {
    &&& a.len() == b.len()
    &&& forall|i: int| 0 <= i < a.len() ==> lower_code(a[i]) == lower_code(#[trigger] b[i])
}

/// ASCII-case-insensitive string comparison.
pub fn eq_ignore_case(a: &str, b: &str) -> (r: bool)
    ensures
        r == eq_ci_seq(a@, b@),
{
    let an = a.unicode_len();
    let bn = b.unicode_len();
    if an != bn {
        return false;
    }
    let mut i: usize = 0;
    while i < an
        invariant
            an == a@.len(),
            bn == b@.len(),
            an == bn,
            0 <= i <= an,
            forall|j: int| 0 <= j < i ==> lower_code(a@[j]) == lower_code(#[trigger] b@[j]),
        decreases an - i,
    {
        let ca = a.get_char(i) as u32;
        let cb = b.get_char(i) as u32;
        let la = if 65 <= ca && ca <= 90 {
            ca + 32
        } else {
            ca
        };
        let lb = if 65 <= cb && cb <= 90 {
            cb + 32
        } else {
            cb
        };
        if la != lb {
            return false;
        }
        i += 1;
    }
    true
}

/// Exact string comparison.
pub fn str_eq(a: &str, b: &str) -> (r: bool)
    ensures
        r == (a@ == b@),
{
    let an = a.unicode_len();
    let bn = b.unicode_len();
    if an != bn {
        proof {
            assert(a@.len() != b@.len());
        }
        return false;
    }
    let mut i: usize = 0;
    while i < an
        invariant
            an == a@.len(),
            bn == b@.len(),
            an == bn,
            0 <= i <= an,
            forall|j: int| 0 <= j < i ==> a@[j] == b@[j],
        decreases an - i,
    {
        if a.get_char(i) != b.get_char(i) {
            return false;
        }
        i += 1;
    }
    proof {
        assert(a@ =~= b@);
    }
    true
}

/// The whitespace characters this header syntax strips at field edges.
pub open spec fn is_space(c: char) -> bool {
    c == ' ' || c == '\t' || c == '\n' || c == '\r'
}

/// Which characters a trimming pass strips.
#[derive(Clone, Copy, Debug)]
pub enum TrimClass {
    /// Whitespace at both ends.
    Space,
    /// Double quotes at both ends.
    Quote,
    /// An opening and closing delimiter, and spaces, at both ends.
    Wrap { l: char, r: char },
}

/// Whether `c` belongs to the trimming class.
pub open spec fn in_class(cls: TrimClass, c: char) -> bool {
    match cls {
        TrimClass::Space => is_space(c),
        TrimClass::Quote => c == '"',
        TrimClass::Wrap { l, r } => c == l || c == r || c == ' ',
    }
}

/// `s` with every leading and trailing character of the class removed.
pub open spec fn trim_class(cls: TrimClass, s: Seq<char>) -> Seq<char>
    decreases s.len(),
{
    if s.len() == 0 {
        s
    } else if in_class(cls, s[0]) {
        trim_class(cls, s.drop_first())
    } else if in_class(cls, s[s.len() - 1]) {
        trim_class(cls, s.drop_last())
    } else {
        s
    }
}

/// A sequence all of whose characters are in the class trims to nothing.
proof fn lemma_trim_class_all(cls: TrimClass, s: Seq<char>)
    requires
        forall|i: int| 0 <= i < s.len() ==> in_class(cls, #[trigger] s[i]),
    ensures
        trim_class(cls, s) =~= Seq::<char>::empty(),
    decreases s.len(),
{
    if s.len() > 0 {
        lemma_trim_class_all(cls, s.drop_first());
    }
}

/// Trimming removes exactly the maximal runs of class characters at the two
/// ends: the result is the subrange between them.
proof fn lemma_trim_class_subrange(cls: TrimClass, s: Seq<char>, lo: int, hi: int)
    requires
        0 <= lo <= hi <= s.len(),
        forall|i: int| 0 <= i < lo ==> in_class(cls, #[trigger] s[i]),
        forall|i: int| hi <= i < s.len() ==> in_class(cls, #[trigger] s[i]),
        lo != hi ==> !in_class(cls, s[lo]) && !in_class(cls, s[hi - 1]),
    ensures
        trim_class(cls, s) =~= s.subrange(lo, hi),
    decreases s.len(),
{
    if lo == hi {
        lemma_trim_class_all(cls, s.subrange(0, lo));
        lemma_trim_class_all(cls, s);
    } else if s.len() == 0 {
    } else if in_class(cls, s[0]) {
        let s1 = s.drop_first();
        assert forall|i: int| 0 <= i < lo - 1 implies in_class(cls, #[trigger] s1[i]) by {
            assert(s1[i] == s[i + 1]);
        }
        assert forall|i: int| hi - 1 <= i < s1.len() implies in_class(cls, #[trigger] s1[i]) by {
            assert(s1[i] == s[i + 1]);
        }
        lemma_trim_class_subrange(cls, s1, lo - 1, hi - 1);
        assert(s1.subrange(lo - 1, hi - 1) =~= s.subrange(lo, hi));
    } else if in_class(cls, s[s.len() - 1]) {
        let s1 = s.drop_last();
        assert(lo < s.len() && !in_class(cls, s[lo]));
        assert(hi < s.len());
        lemma_trim_class_subrange(cls, s1, lo, hi);
        assert(s1.subrange(lo, hi) =~= s.subrange(lo, hi));
    } else {
        assert(lo == 0 && hi == s.len());
        assert(s.subrange(0, s.len() as int) =~= s);
    }
}

/// Whether `c` belongs to the trimming class.
fn class_test(cls: TrimClass, c: char) -> (r: bool)
    ensures
        r == in_class(cls, c),
{
    match cls {
        TrimClass::Space => c == ' ' || c == '\t' || c == '\n' || c == '\r',
        TrimClass::Quote => c == '"',
        TrimClass::Wrap { l, r } => c == l || c == r || c == ' ',
    }
}

/// Strips every leading and trailing character of the class.
pub fn trim_matching<'a>(s: &'a str, cls: TrimClass) -> (r: &'a str)
    ensures
        r@ == trim_class(cls, s@),
{
    let n = s.unicode_len();
    let mut lo: usize = 0;
    let mut hi: usize = n;
    while lo < n && class_test(cls, s.get_char(lo))
        invariant
            n == s@.len(),
            0 <= lo <= n,
            forall|i: int| 0 <= i < lo ==> in_class(cls, #[trigger] s@[i]),
        decreases n - lo,
    {
        lo += 1;
    }
    while hi > lo && class_test(cls, s.get_char(hi - 1))
        invariant
            n == s@.len(),
            lo <= hi <= n,
            forall|i: int| hi <= i < n ==> in_class(cls, #[trigger] s@[i]),
        decreases hi,
    {
        hi -= 1;
    }
    proof {
        lemma_trim_class_subrange(cls, s@, lo as int, hi as int);
    }
    s.substring_char(lo, hi)
}

/// `verify_and_trim(s, l, r)` accepts `s` exactly when it is wrapped in the
/// delimiters `l`…`r`, and then strips the delimiters and spaces from both
/// ends.
pub open spec fn verify_and_trim_spec(s: Seq<char>, l: char, r: char) -> Option<Seq<char>> {
    if s.len() > 1 && s[0] == l && s[s.len() - 1] == r {
        Some(trim_class(TrimClass::Wrap { l, r }, s))
    } else {
        None
    }
}

/// Checks that `s` starts with `l` and ends with `r`, and strips both
/// delimiters and surrounding spaces; rejects anything else as a malformed
/// header field.
pub fn verify_and_trim<'a>(s: &'a str, l: u8, r: u8) -> (res: Result<&'a str, HttpError>)
    ensures
        match res {
            Ok(t) => verify_and_trim_spec(s@, l as char, r as char) == Some(t@),
            Err(e) => verify_and_trim_spec(s@, l as char, r as char) is None && e is HttpHeaderError,
        },
{
    let length = s.unicode_len();
    if length > 1 && s.get_char(0) == l as char && s.get_char(length - 1) == r as char {
        Ok(trim_matching(s, TrimClass::Wrap { l: l as char, r: r as char }))
    } else {
        Err(HttpError::HttpHeaderError)
    }
}

// ---------------------------------------------------------------------------
// URI references
// ---------------------------------------------------------------------------

/// A character a URI reference may carry: printable, no whitespace, and none
/// of the wrapping delimiters this header reserves.
pub open spec fn uri_char_ok(c: char) -> bool {
    &&& c as int > 32
    &&& c != '<'
    &&& c != '>'
    &&& c != '"'
}

/// A URI reference as this library accepts it: non-empty, every character
/// allowed.
pub open spec fn uri_valid(s: Seq<char>) -> bool {
    &&& s.len() > 0
    &&& forall|i: int| 0 <= i < s.len() ==> uri_char_ok(#[trigger] s[i])
}

/// A target or context IRI of a `link-value`.
#[derive(Clone, PartialEq, Debug)]
pub struct Uri {
    s: String,
}

impl View for Uri {
    type V = Seq<char>;

    closed spec fn view(&self) -> Seq<char> {
        self.s@
    }
}

impl Uri {
    /// Accepts `uri` exactly when it is a non-empty string of allowed
    /// characters; rejects anything else as a malformed header field.
    pub fn new(uri: &str) -> (r: HttpResult<Uri>)
        ensures
            match r {
                Ok(u) => uri_valid(uri@) && u@ == uri@,
                Err(e) => !uri_valid(uri@) && e is HttpHeaderError,
            },
    {
        let n = uri.unicode_len();
        if n == 0 {
            return Err(HttpError::HttpHeaderError);
        }
        let mut i: usize = 0;
        while i < n
            invariant
                n == uri@.len(),
                0 <= i <= n,
                forall|j: int| 0 <= j < i ==> uri_char_ok(#[trigger] uri@[j]),
            decreases n - i,
        {
            let c = uri.get_char(i);
            if c as u32 <= 32 || c == '<' || c == '>' || c == '"' {
                return Err(HttpError::HttpHeaderError);
            }
            i += 1;
        }
        Ok(Uri { s: String::from_str(uri) })
    }

    /// The textual form of this URI reference.
    pub fn as_str(&self) -> (r: &str)
        ensures
            r@ == self@,
    {
        self.s.as_str()
    }
}

// ---------------------------------------------------------------------------
// Media descriptors
// ---------------------------------------------------------------------------

/// A media descriptor for the `media` target attribute.
#[derive(Clone, PartialEq, Debug)]
pub enum MediaDesc {
    /// screen
    Screen,
    /// tty
    Tty,
    /// tv
    Tv,
    /// projection
    Projection,
    /// handheld
    Handheld,
    /// print
    Print,
    /// braille
    Braille,
    /// aural
    Aural,
    /// all
    All,
    /// Other Values
    Value(String),
}

/// The abstract form of a [`MediaDesc`].
pub enum MediaDescV {
    Screen,
    Tty,
    Tv,
    Projection,
    Handheld,
    Print,
    Braille,
    Aural,
    All,
    Value(Seq<char>),
}

impl View for MediaDesc {
    type V = MediaDescV;

    open spec fn view(&self) -> MediaDescV {
        match self {
            MediaDesc::Screen => MediaDescV::Screen,
            MediaDesc::Tty => MediaDescV::Tty,
            MediaDesc::Tv => MediaDescV::Tv,
            MediaDesc::Projection => MediaDescV::Projection,
            MediaDesc::Handheld => MediaDescV::Handheld,
            MediaDesc::Print => MediaDescV::Print,
            MediaDesc::Braille => MediaDescV::Braille,
            MediaDesc::Aural => MediaDescV::Aural,
            MediaDesc::All => MediaDescV::All,
            MediaDesc::Value(s) => MediaDescV::Value(s@),
        }
    }
}

/// The serialized text of a media descriptor.
pub open spec fn media_desc_text(m: MediaDescV) -> Seq<char> {
    match m {
        MediaDescV::Screen => "screen"@,
        MediaDescV::Tty => "tty"@,
        MediaDescV::Tv => "tv"@,
        MediaDescV::Projection => "projection"@,
        MediaDescV::Handheld => "handheld"@,
        MediaDescV::Print => "print"@,
        MediaDescV::Braille => "braille"@,
        MediaDescV::Aural => "aural"@,
        MediaDescV::All => "all"@,
        MediaDescV::Value(s) => s,
    }
}

/// Parsing a media descriptor: the nine known words, case-sensitively, and
/// any other text as an uninterpreted `Value`. Never fails.
pub open spec fn media_desc_parse(s: Seq<char>) -> MediaDescV {
    if s == "screen"@ {
        MediaDescV::Screen
    } else if s == "tty"@ {
        MediaDescV::Tty
    } else if s == "tv"@ {
        MediaDescV::Tv
    } else if s == "projection"@ {
        MediaDescV::Projection
    } else if s == "handheld"@ {
        MediaDescV::Handheld
    } else if s == "print"@ {
        MediaDescV::Print
    } else if s == "braille"@ {
        MediaDescV::Braille
    } else if s == "aural"@ {
        MediaDescV::Aural
    } else if s == "all"@ {
        MediaDescV::All
    } else {
        MediaDescV::Value(s)
    }
}

impl MediaDesc {
    /// Parses one media descriptor; unknown words are kept verbatim.
    pub fn from_str(s: &str) -> (r: HttpResult<MediaDesc>)
        ensures
            r matches Ok(m) && m@ == media_desc_parse(s@),
    {
        if str_eq(s, "screen") {
            Ok(MediaDesc::Screen)
        } else if str_eq(s, "tty") {
            Ok(MediaDesc::Tty)
        } else if str_eq(s, "tv") {
            Ok(MediaDesc::Tv)
        } else if str_eq(s, "projection") {
            Ok(MediaDesc::Projection)
        } else if str_eq(s, "handheld") {
            Ok(MediaDesc::Handheld)
        } else if str_eq(s, "print") {
            Ok(MediaDesc::Print)
        } else if str_eq(s, "braille") {
            Ok(MediaDesc::Braille)
        } else if str_eq(s, "aural") {
            Ok(MediaDesc::Aural)
        } else if str_eq(s, "all") {
            Ok(MediaDesc::All)
        } else {
            Ok(MediaDesc::Value(String::from_str(s)))
        }
    }

    /// Appends this media descriptor's text to `f`.
    pub fn fmt(&self, f: &mut String)
        ensures
            final(f)@ == old(f)@ + media_desc_text(self@),
    {
        match self {
            MediaDesc::Screen => f.append("screen"),
            MediaDesc::Tty => f.append("tty"),
            MediaDesc::Tv => f.append("tv"),
            MediaDesc::Projection => f.append("projection"),
            MediaDesc::Handheld => f.append("handheld"),
            MediaDesc::Print => f.append("print"),
            MediaDesc::Braille => f.append("braille"),
            MediaDesc::Aural => f.append("aural"),
            MediaDesc::All => f.append("all"),
            MediaDesc::Value(other) => f.append(other.as_str()),
        }
    }
}

// ---------------------------------------------------------------------------
// Relation types
// ---------------------------------------------------------------------------

/// A link relation type (RFC 5988 section 6.2.2): a registered relation, or
/// an extension relation named by a URI.
#[derive(Clone, PartialEq, Debug)]
pub enum RelationType {
    /// alternate
    Alternate,
    /// appendix
    Appendix,
    /// bookmark
    Bookmark,
    /// chapter
    Chapter,
    /// contents
    Contents,
    /// copyright
    Copyright,
    /// current
    Current,
    /// describedby
    DescribedBy,
    /// edit
    Edit,
    /// editMedia
    EditMedia,
    /// enclosure
    Enclosure,
    /// first
    First,
    /// glossary
    Glossary,
    /// help
    Help,
    /// hub
    Hub,
    /// index
    Index,
    /// last
    Last,
    /// latestVersion
    LatestVersion,
    /// license
    License,
    /// next
    Next,
    /// nextArchive
    NextArchive,
    /// payment
    Payment,
    /// prev
    Prev,
    /// predecessorVersion
    PredecessorVersion,
    /// previous
    Previous,
    /// prevArchive
    PrevArchive,
    /// related
    Related,
    /// replies
    Replies,
    /// section
    Section,
    /// self
    RelationTypeSelf,
    /// service
    Service,
    /// start
    Start,
    /// stylesheet
    Stylesheet,
    /// subsection
    Subsection,
    /// successorVersion
    SuccessorVersion,
    /// up
    Up,
    /// versionHistory
    VersionHistory,
    /// via
    Via,
    /// working-copy
    WorkingCopy,
    /// working-copy-of
    WorkingCopyOf,
    /// ext-rel-type
    ExtRelType(Uri),
}

/// The abstract form of a [`RelationType`].
pub enum RelationTypeV {
    Alternate,
    Appendix,
    Bookmark,
    Chapter,
    Contents,
    Copyright,
    Current,
    DescribedBy,
    Edit,
    EditMedia,
    Enclosure,
    First,
    Glossary,
    Help,
    Hub,
    Index,
    Last,
    LatestVersion,
    License,
    Next,
    NextArchive,
    Payment,
    Prev,
    PredecessorVersion,
    Previous,
    PrevArchive,
    Related,
    Replies,
    Section,
    RelationTypeSelf,
    Service,
    Start,
    Stylesheet,
    Subsection,
    SuccessorVersion,
    Up,
    VersionHistory,
    Via,
    WorkingCopy,
    WorkingCopyOf,
    ExtRelType(Seq<char>),
}

impl View for RelationType {
    type V = RelationTypeV;

    open spec fn view(&self) -> RelationTypeV {
        match self {
            RelationType::Alternate => RelationTypeV::Alternate,
            RelationType::Appendix => RelationTypeV::Appendix,
            RelationType::Bookmark => RelationTypeV::Bookmark,
            RelationType::Chapter => RelationTypeV::Chapter,
            RelationType::Contents => RelationTypeV::Contents,
            RelationType::Copyright => RelationTypeV::Copyright,
            RelationType::Current => RelationTypeV::Current,
            RelationType::DescribedBy => RelationTypeV::DescribedBy,
            RelationType::Edit => RelationTypeV::Edit,
            RelationType::EditMedia => RelationTypeV::EditMedia,
            RelationType::Enclosure => RelationTypeV::Enclosure,
            RelationType::First => RelationTypeV::First,
            RelationType::Glossary => RelationTypeV::Glossary,
            RelationType::Help => RelationTypeV::Help,
            RelationType::Hub => RelationTypeV::Hub,
            RelationType::Index => RelationTypeV::Index,
            RelationType::Last => RelationTypeV::Last,
            RelationType::LatestVersion => RelationTypeV::LatestVersion,
            RelationType::License => RelationTypeV::License,
            RelationType::Next => RelationTypeV::Next,
            RelationType::NextArchive => RelationTypeV::NextArchive,
            RelationType::Payment => RelationTypeV::Payment,
            RelationType::Prev => RelationTypeV::Prev,
            RelationType::PredecessorVersion => RelationTypeV::PredecessorVersion,
            RelationType::Previous => RelationTypeV::Previous,
            RelationType::PrevArchive => RelationTypeV::PrevArchive,
            RelationType::Related => RelationTypeV::Related,
            RelationType::Replies => RelationTypeV::Replies,
            RelationType::Section => RelationTypeV::Section,
            RelationType::RelationTypeSelf => RelationTypeV::RelationTypeSelf,
            RelationType::Service => RelationTypeV::Service,
            RelationType::Start => RelationTypeV::Start,
            RelationType::Stylesheet => RelationTypeV::Stylesheet,
            RelationType::Subsection => RelationTypeV::Subsection,
            RelationType::SuccessorVersion => RelationTypeV::SuccessorVersion,
            RelationType::Up => RelationTypeV::Up,
            RelationType::VersionHistory => RelationTypeV::VersionHistory,
            RelationType::Via => RelationTypeV::Via,
            RelationType::WorkingCopy => RelationTypeV::WorkingCopy,
            RelationType::WorkingCopyOf => RelationTypeV::WorkingCopyOf,
            RelationType::ExtRelType(u) => RelationTypeV::ExtRelType(u@),
        }
    }
}

/// The canonical serialized text of a relation type.
pub open spec fn rel_text(r: RelationTypeV) -> Seq<char> {
    match r {
        RelationTypeV::Alternate => "alternate"@,
        RelationTypeV::Appendix => "appendix"@,
        RelationTypeV::Bookmark => "bookmark"@,
        RelationTypeV::Chapter => "chapter"@,
        RelationTypeV::Contents => "contents"@,
        RelationTypeV::Copyright => "copyright"@,
        RelationTypeV::Current => "current"@,
        RelationTypeV::DescribedBy => "describedby"@,
        RelationTypeV::Edit => "edit"@,
        RelationTypeV::EditMedia => "edit-media"@,
        RelationTypeV::Enclosure => "enclosure"@,
        RelationTypeV::First => "first"@,
        RelationTypeV::Glossary => "glossary"@,
        RelationTypeV::Help => "help"@,
        RelationTypeV::Hub => "hub"@,
        RelationTypeV::Index => "index"@,
        RelationTypeV::Last => "last"@,
        RelationTypeV::LatestVersion => "latest-version"@,
        RelationTypeV::License => "license"@,
        RelationTypeV::Next => "next"@,
        RelationTypeV::NextArchive => "next-archive"@,
        RelationTypeV::Payment => "payment"@,
        RelationTypeV::Prev => "prev"@,
        RelationTypeV::PredecessorVersion => "predecessor-version"@,
        RelationTypeV::Previous => "previous"@,
        RelationTypeV::PrevArchive => "prev-archive"@,
        RelationTypeV::Related => "related"@,
        RelationTypeV::Replies => "replies"@,
        RelationTypeV::Section => "section"@,
        RelationTypeV::RelationTypeSelf => "self"@,
        RelationTypeV::Service => "service"@,
        RelationTypeV::Start => "start"@,
        RelationTypeV::Stylesheet => "stylesheet"@,
        RelationTypeV::Subsection => "subsection"@,
        RelationTypeV::SuccessorVersion => "successor-version"@,
        RelationTypeV::Up => "up"@,
        RelationTypeV::VersionHistory => "version-history"@,
        RelationTypeV::Via => "via"@,
        RelationTypeV::WorkingCopy => "working-copy"@,
        RelationTypeV::WorkingCopyOf => "working-copy-of"@,
        RelationTypeV::ExtRelType(u) => u,
    }
}

/// Parsing a relation type: one of the registered names, ASCII case
/// folded, or any valid URI as an extension relation; anything else is
/// rejected.
pub open spec fn rel_parse(s: Seq<char>) -> Option<RelationTypeV> {
    if eq_ci_seq(s, "alternate"@) {
        Some(RelationTypeV::Alternate)
    } else if eq_ci_seq(s, "appendix"@) {
        Some(RelationTypeV::Appendix)
    } else if eq_ci_seq(s, "bookmark"@) {
        Some(RelationTypeV::Bookmark)
    } else if eq_ci_seq(s, "chapter"@) {
        Some(RelationTypeV::Chapter)
    } else if eq_ci_seq(s, "contents"@) {
        Some(RelationTypeV::Contents)
    } else if eq_ci_seq(s, "copyright"@) {
        Some(RelationTypeV::Copyright)
    } else if eq_ci_seq(s, "current"@) {
        Some(RelationTypeV::Current)
    } else if eq_ci_seq(s, "describedby"@) {
        Some(RelationTypeV::DescribedBy)
    } else if eq_ci_seq(s, "edit"@) {
        Some(RelationTypeV::Edit)
    } else if eq_ci_seq(s, "edit-media"@) {
        Some(RelationTypeV::EditMedia)
    } else if eq_ci_seq(s, "enclosure"@) {
        Some(RelationTypeV::Enclosure)
    } else if eq_ci_seq(s, "first"@) {
        Some(RelationTypeV::First)
    } else if eq_ci_seq(s, "glossary"@) {
        Some(RelationTypeV::Glossary)
    } else if eq_ci_seq(s, "help"@) {
        Some(RelationTypeV::Help)
    } else if eq_ci_seq(s, "hub"@) {
        Some(RelationTypeV::Hub)
    } else if eq_ci_seq(s, "index"@) {
        Some(RelationTypeV::Index)
    } else if eq_ci_seq(s, "last"@) {
        Some(RelationTypeV::Last)
    } else if eq_ci_seq(s, "latest-version"@) {
        Some(RelationTypeV::LatestVersion)
    } else if eq_ci_seq(s, "license"@) {
        Some(RelationTypeV::License)
    } else if eq_ci_seq(s, "next"@) {
        Some(RelationTypeV::Next)
    } else if eq_ci_seq(s, "next-archive"@) {
        Some(RelationTypeV::NextArchive)
    } else if eq_ci_seq(s, "payment"@) {
        Some(RelationTypeV::Payment)
    } else if eq_ci_seq(s, "prev"@) {
        Some(RelationTypeV::Prev)
    } else if eq_ci_seq(s, "predecessor-version"@) {
        Some(RelationTypeV::PredecessorVersion)
    } else if eq_ci_seq(s, "previous"@) {
        Some(RelationTypeV::Previous)
    } else if eq_ci_seq(s, "prev-archive"@) {
        Some(RelationTypeV::PrevArchive)
    } else if eq_ci_seq(s, "related"@) {
        Some(RelationTypeV::Related)
    } else if eq_ci_seq(s, "replies"@) {
        Some(RelationTypeV::Replies)
    } else if eq_ci_seq(s, "section"@) {
        Some(RelationTypeV::Section)
    } else if eq_ci_seq(s, "self"@) {
        Some(RelationTypeV::RelationTypeSelf)
    } else if eq_ci_seq(s, "service"@) {
        Some(RelationTypeV::Service)
    } else if eq_ci_seq(s, "start"@) {
        Some(RelationTypeV::Start)
    } else if eq_ci_seq(s, "stylesheet"@) {
        Some(RelationTypeV::Stylesheet)
    } else if eq_ci_seq(s, "subsection"@) {
        Some(RelationTypeV::Subsection)
    } else if eq_ci_seq(s, "successor-version"@) {
        Some(RelationTypeV::SuccessorVersion)
    } else if eq_ci_seq(s, "up"@) {
        Some(RelationTypeV::Up)
    } else if eq_ci_seq(s, "version-history"@) {
        Some(RelationTypeV::VersionHistory)
    } else if eq_ci_seq(s, "via"@) {
        Some(RelationTypeV::Via)
    } else if eq_ci_seq(s, "working-copy"@) {
        Some(RelationTypeV::WorkingCopy)
    } else if eq_ci_seq(s, "working-copy-of"@) {
        Some(RelationTypeV::WorkingCopyOf)
    } else if uri_valid(s) {
        Some(RelationTypeV::ExtRelType(s))
    } else {
        None
    }
}

impl RelationType {
    /// Parses one relation type, matching registered names without regard
    /// to ASCII case, and accepting any valid URI as an extension relation.
    pub fn from_str(s: &str) -> (r: HttpResult<RelationType>)
        ensures
            match r {
                Ok(v) => rel_parse(s@) == Some(v@),
                Err(e) => rel_parse(s@) is None && e is HttpHeaderError,
            },
    {
        if eq_ignore_case(s, "alternate") {
            Ok(RelationType::Alternate)
        } else if eq_ignore_case(s, "appendix") {
            Ok(RelationType::Appendix)
        } else if eq_ignore_case(s, "bookmark") {
            Ok(RelationType::Bookmark)
        } else if eq_ignore_case(s, "chapter") {
            Ok(RelationType::Chapter)
        } else if eq_ignore_case(s, "contents") {
            Ok(RelationType::Contents)
        } else if eq_ignore_case(s, "copyright") {
            Ok(RelationType::Copyright)
        } else if eq_ignore_case(s, "current") {
            Ok(RelationType::Current)
        } else if eq_ignore_case(s, "describedby") {
            Ok(RelationType::DescribedBy)
        } else if eq_ignore_case(s, "edit") {
            Ok(RelationType::Edit)
        } else if eq_ignore_case(s, "edit-media") {
            Ok(RelationType::EditMedia)
        } else if eq_ignore_case(s, "enclosure") {
            Ok(RelationType::Enclosure)
        } else if eq_ignore_case(s, "first") {
            Ok(RelationType::First)
        } else if eq_ignore_case(s, "glossary") {
            Ok(RelationType::Glossary)
        } else if eq_ignore_case(s, "help") {
            Ok(RelationType::Help)
        } else if eq_ignore_case(s, "hub") {
            Ok(RelationType::Hub)
        } else if eq_ignore_case(s, "index") {
            Ok(RelationType::Index)
        } else if eq_ignore_case(s, "last") {
            Ok(RelationType::Last)
        } else if eq_ignore_case(s, "latest-version") {
            Ok(RelationType::LatestVersion)
        } else if eq_ignore_case(s, "license") {
            Ok(RelationType::License)
        } else if eq_ignore_case(s, "next") {
            Ok(RelationType::Next)
        } else if eq_ignore_case(s, "next-archive") {
            Ok(RelationType::NextArchive)
        } else if eq_ignore_case(s, "payment") {
            Ok(RelationType::Payment)
        } else if eq_ignore_case(s, "prev") {
            Ok(RelationType::Prev)
        } else if eq_ignore_case(s, "predecessor-version") {
            Ok(RelationType::PredecessorVersion)
        } else if eq_ignore_case(s, "previous") {
            Ok(RelationType::Previous)
        } else if eq_ignore_case(s, "prev-archive") {
            Ok(RelationType::PrevArchive)
        } else if eq_ignore_case(s, "related") {
            Ok(RelationType::Related)
        } else if eq_ignore_case(s, "replies") {
            Ok(RelationType::Replies)
        } else if eq_ignore_case(s, "section") {
            Ok(RelationType::Section)
        } else if eq_ignore_case(s, "self") {
            Ok(RelationType::RelationTypeSelf)
        } else if eq_ignore_case(s, "service") {
            Ok(RelationType::Service)
        } else if eq_ignore_case(s, "start") {
            Ok(RelationType::Start)
        } else if eq_ignore_case(s, "stylesheet") {
            Ok(RelationType::Stylesheet)
        } else if eq_ignore_case(s, "subsection") {
            Ok(RelationType::Subsection)
        } else if eq_ignore_case(s, "successor-version") {
            Ok(RelationType::SuccessorVersion)
        } else if eq_ignore_case(s, "up") {
            Ok(RelationType::Up)
        } else if eq_ignore_case(s, "version-history") {
            Ok(RelationType::VersionHistory)
        } else if eq_ignore_case(s, "via") {
            Ok(RelationType::Via)
        } else if eq_ignore_case(s, "working-copy") {
            Ok(RelationType::WorkingCopy)
        } else if eq_ignore_case(s, "working-copy-of") {
            Ok(RelationType::WorkingCopyOf)
        } else {
            match Uri::new(s) {
                Err(e) => Err(e),
                Ok(uri) => Ok(RelationType::ExtRelType(uri)),
            }
        }
    }

    /// Appends this relation type's canonical text to `f`.
    pub fn fmt(&self, f: &mut String)
        ensures
            final(f)@ == old(f)@ + rel_text(self@),
    {
        match self {
            RelationType::Alternate => f.append("alternate"),
            RelationType::Appendix => f.append("appendix"),
            RelationType::Bookmark => f.append("bookmark"),
            RelationType::Chapter => f.append("chapter"),
            RelationType::Contents => f.append("contents"),
            RelationType::Copyright => f.append("copyright"),
            RelationType::Current => f.append("current"),
            RelationType::DescribedBy => f.append("describedby"),
            RelationType::Edit => f.append("edit"),
            RelationType::EditMedia => f.append("edit-media"),
            RelationType::Enclosure => f.append("enclosure"),
            RelationType::First => f.append("first"),
            RelationType::Glossary => f.append("glossary"),
            RelationType::Help => f.append("help"),
            RelationType::Hub => f.append("hub"),
            RelationType::Index => f.append("index"),
            RelationType::Last => f.append("last"),
            RelationType::LatestVersion => f.append("latest-version"),
            RelationType::License => f.append("license"),
            RelationType::Next => f.append("next"),
            RelationType::NextArchive => f.append("next-archive"),
            RelationType::Payment => f.append("payment"),
            RelationType::Prev => f.append("prev"),
            RelationType::PredecessorVersion => f.append("predecessor-version"),
            RelationType::Previous => f.append("previous"),
            RelationType::PrevArchive => f.append("prev-archive"),
            RelationType::Related => f.append("related"),
            RelationType::Replies => f.append("replies"),
            RelationType::Section => f.append("section"),
            RelationType::RelationTypeSelf => f.append("self"),
            RelationType::Service => f.append("service"),
            RelationType::Start => f.append("start"),
            RelationType::Stylesheet => f.append("stylesheet"),
            RelationType::Subsection => f.append("subsection"),
            RelationType::SuccessorVersion => f.append("successor-version"),
            RelationType::Up => f.append("up"),
            RelationType::VersionHistory => f.append("version-history"),
            RelationType::Via => f.append("via"),
            RelationType::WorkingCopy => f.append("working-copy"),
            RelationType::WorkingCopyOf => f.append("working-copy-of"),
            RelationType::ExtRelType(uri) => f.append(uri.as_str()),
        }
    }
}

// ---------------------------------------------------------------------------
// Delimited lists of header components
// ---------------------------------------------------------------------------

/// A header component with a canonical serialized text.
pub trait HeaderText: Sized {
    /// The serialized text of this value.
    spec fn text_of(&self) -> Seq<char>;

    /// Appends the serialized text to `f`.
    fn write_text(&self, f: &mut String)
        ensures
            final(f)@ == old(f)@ + self.text_of(),
    ;
}

impl HeaderText for RelationType {
    open spec fn text_of(&self) -> Seq<char> {
        rel_text(self@)
    }

    fn write_text(&self, f: &mut String) {
        self.fmt(f)
    }
}

impl HeaderText for MediaDesc {
    open spec fn text_of(&self) -> Seq<char> {
        media_desc_text(self@)
    }

    fn write_text(&self, f: &mut String) {
        self.fmt(f)
    }
}

/// A header component parsed from one field of a delimited list.
pub trait DelimPart: Sized + View {
    /// What parsing one field yields, if anything.
    spec fn part_parse(s: Seq<char>) -> Option<Self::V>;

    /// Parses one field.
    fn parse_part(s: &str) -> (r: HttpResult<Self>)
        ensures
            (match r {
                Ok(v) => Self::part_parse(s@) == Some(v@),
                Err(e) => Self::part_parse(s@) is None && e is HttpHeaderError,
            }),
    ;
}

impl DelimPart for RelationType {
    open spec fn part_parse(s: Seq<char>) -> Option<RelationTypeV> {
        rel_parse(s)
    }

    fn parse_part(s: &str) -> (r: HttpResult<RelationType>) {
        RelationType::from_str(s)
    }
}

impl DelimPart for MediaDesc {
    open spec fn part_parse(s: Seq<char>) -> Option<MediaDescV> {
        Some(media_desc_parse(s))
    }

    fn parse_part(s: &str) -> (r: HttpResult<MediaDesc>) {
        MediaDesc::from_str(s)
    }
}

/// The position of the first `d` at or after `i`, or the length if none.
pub open spec fn find_char(s: Seq<char>, d: char, i: int) -> int
    decreases s.len() - i,
{
    if i < 0 || i >= s.len() {
        s.len() as int
    } else if s[i] == d {
        i
    } else {
        find_char(s, d, i + 1)
    }
}

proof fn lemma_find_char_bounds(s: Seq<char>, d: char, i: int)
    requires
        0 <= i <= s.len(),
    ensures
        i <= find_char(s, d, i) <= s.len(),
    decreases s.len() - i,
{
    if i < s.len() && s[i] != d {
        lemma_find_char_bounds(s, d, i + 1);
    }
}

/// `find_char` is the unique position with no `d` before it that is the
/// length or carries `d`.
proof fn lemma_find_char_at(s: Seq<char>, d: char, i: int, e: int)
    requires
        0 <= i <= e <= s.len(),
        forall|j: int| i <= j < e ==> s[j] != d,
        e == s.len() || s[e] == d,
    ensures
        find_char(s, d, i) == e,
    decreases e - i,
{
    if i < e {
        lemma_find_char_at(s, d, i + 1, e);
    }
}

/// The fields of `s` split at every `d`, from position `pos`: always at
/// least one field, fields may be empty.
pub open spec fn char_split_from(s: Seq<char>, d: char, pos: int) -> Seq<Seq<char>>
    decreases s.len() - pos,
        when 0 <= pos <= s.len() via char_split_from_decreases
{
    if !(0 <= pos <= s.len()) {
        Seq::empty()
    } else {
        let e = find_char(s, d, pos);
        if e >= s.len() {
            seq![s.subrange(pos, s.len() as int)]
        } else {
            seq![s.subrange(pos, e)] + char_split_from(s, d, e + 1)
        }
    }
}

#[via_fn]
proof fn char_split_from_decreases(s: Seq<char>, d: char, pos: int) {
    if 0 <= pos <= s.len() {
        lemma_find_char_bounds(s, d, pos);
    }
}

/// Parses every field of a delimited list, each trimmed first; one bad
/// field rejects the whole list.
pub open spec fn parse_parts<T: DelimPart>(parts: Seq<Seq<char>>) -> Option<Seq<T::V>>
    decreases parts.len(),
{
    if parts.len() == 0 {
        Some(Seq::empty())
    } else {
        match T::part_parse(trim_class(TrimClass::Space, parts[0])) {
            None => None,
            Some(v) => match parse_parts::<T>(parts.drop_first()) {
                None => None,
                Some(rest) => Some(seq![v] + rest),
            },
        }
    }
}

/// What parsing `s` as a `d`-delimited list of `T` yields.
pub open spec fn delim_parse<T: DelimPart>(s: Seq<char>, d: char) -> Option<Seq<T::V>> {
    parse_parts::<T>(char_split_from(s, d, 0))
}

/// Splits `s` at every `d` and parses each field, trimmed; returns the
/// parsed values in order, or the first field's error.
pub fn from_str_delimited<T: DelimPart>(s: &str, d: char) -> (r: HttpResult<Vec<T>>)
    ensures
        match r {
            Ok(v) => delim_parse::<T>(s@, d) == Some(v@.map_values(|x: T| x@)),
            Err(e) => delim_parse::<T>(s@, d) is None && e is HttpHeaderError,
        },
{
    let n = s.unicode_len();
    let mut v: Vec<T> = Vec::new();
    let mut pos: usize = 0;
    loop
        invariant
            n == s@.len(),
            0 <= pos <= n,
            (match parse_parts::<T>(char_split_from(s@, d, pos as int)) {
                Some(rest) => delim_parse::<T>(s@, d) == Some(v@.map_values(|x: T| x@) + rest),
                None => delim_parse::<T>(s@, d) is None,
            }),
        decreases n - pos,
    {
        let ghost pos0 = pos as int;
        let mut e: usize = pos;
        while e < n && s.get_char(e) != d
            invariant
                n == s@.len(),
                pos <= e <= n,
                forall|j: int| pos <= j < e ==> s@[j] != d,
            decreases n - e,
        {
            e += 1;
        }
        proof {
            lemma_find_char_at(s@, d, pos0, e as int);
        }
        let part = s.substring_char(pos, e);
        let trimmed = trim_matching(part, TrimClass::Space);
        match T::parse_part(trimmed) {
            Err(err) => {
                proof {
                    if e < n {
                        assert(char_split_from(s@, d, pos0)[0] == part@);
                    } else {
                        assert(char_split_from(s@, d, pos0)[0] == part@);
                    }
                }
                return Err(err);
            },
            Ok(t) => {
                let ghost tv = t@;
                let ghost old_views = v@.map_values(|x: T| x@);
                v.push(t);
                proof {
                    assert(v@.map_values(|x: T| x@) =~= old_views.push(tv));
                }
                if e == n {
                    proof {
                        let parts = char_split_from(s@, d, pos0);
                        assert(parts[0] == part@);
                        assert(parts.len() == 1);
                        assert(parts.drop_first() =~= Seq::<Seq<char>>::empty());
                        assert(parse_parts::<T>(parts) == Some(seq![tv]));
                        assert(old_views + seq![tv] =~= v@.map_values(|x: T| x@));
                    }
                    return Ok(v);
                }
                pos = e + 1;
                proof {
                    let parts = char_split_from(s@, d, pos0);
                    assert(parts[0] == part@);
                    assert(parts.drop_first() =~= char_split_from(s@, d, pos as int));
                    match parse_parts::<T>(char_split_from(s@, d, pos as int)) {
                        Some(rest) => {
                            assert(parse_parts::<T>(parts) == Some(seq![tv] + rest));
                            assert(old_views + (seq![tv] + rest) =~= v@.map_values(|x: T| x@)
                                + rest);
                        },
                        None => {},
                    }
                }
            },
        }
    }
}

/// The items of `p` from index `i` on, serialized, each preceded by the
/// delimiter `d`.
pub open spec fn joined_text<T: HeaderText>(p: Seq<T>, d: Seq<char>, i: int) -> Seq<char>
    decreases p.len() - i,
{
    if i < 0 || i >= p.len() {
        Seq::empty()
    } else {
        d + p[i].text_of() + joined_text(p, d, i + 1)
    }
}

/// The serialization of a delimited list: nothing for an empty list, else
/// the start mark, the items joined by the delimiter, and the end mark.
pub open spec fn delimited_text<T: HeaderText>(
    p: Seq<T>,
    d: Seq<char>,
    s: Seq<char>,
    e: Seq<char>,
) -> Seq<char> {
    if p.len() == 0 {
        Seq::empty()
    } else {
        s + p[0].text_of() + joined_text(p, d, 1) + e
    }
}

/// Writes `p` to `f` as a delimited list: `s`, the items joined by `d`, and
/// `e`; nothing at all for an empty list.
pub fn fmt_delimited<T: HeaderText>(f: &mut String, p: &Vec<T>, d: &str, s: &str, e: &str)
    ensures
        final(f)@ == old(f)@ + delimited_text(p@, d@, s@, e@),
{
    if p.len() != 0 {
        f.append(s);
        p[0].write_text(f);
        let mut i: usize = 1;
        while i < p.len()
            invariant
                1 <= i <= p@.len(),
                f@ + joined_text(p@, d@, i as int) + e@ == old(f)@ + delimited_text(
                    p@,
                    d@,
                    s@,
                    e@,
                ),
            decreases p@.len() - i,
        {
            let ghost before = f@;
            f.append(d);
            p[i].write_text(f);
            proof {
                assert(f@ =~= before + (d@ + p@[i as int].text_of()));
                assert(before + (d@ + p@[i as int].text_of()) + joined_text(p@, d@, i + 1) + e@
                    =~= before + joined_text(p@, d@, i as int) + e@);
            }
            i += 1;
        }
        f.append(e);
        proof {
            assert(joined_text(p@, d@, p@.len() as int) =~= Seq::<char>::empty());
            assert(f@ =~= old(f)@ + delimited_text(p@, d@, s@, e@));
        }
    } else {
        proof {
            assert(f@ =~= old(f)@ + delimited_text(p@, d@, s@, e@));
        }
    }
}

// ---------------------------------------------------------------------------
// Outside parsers: media types and language tags
// ---------------------------------------------------------------------------

/// What the media-type parser yields for a given text: the canonical text of
/// the parsed type, or nothing for a malformed one. A function of the text
/// alone.
pub uninterp spec fn media_type_parse(s: Seq<char>) -> Option<Seq<char>>;

/// Relies on mime's `FromStr` for `Mime` to validate a media type, and on
/// its `Display` for the canonical text; both depend on the input alone.
#[verifier::external_body]
fn parse_media_type(s: &str) -> (r: Option<String>)
    ensures
        (match r {
            Some(t) => media_type_parse(s@) == Some(t@),
            None => media_type_parse(s@) is None,
        }),
{
    match s.parse::<mime::Mime>() {
        Ok(m) => Some(m.to_string()),
        Err(_) => None,
    }
}

/// What the language-tag parser yields for a given text: the canonical text
/// of the parsed tag, or nothing for a malformed one. A function of the text
/// alone.
pub uninterp spec fn lang_tag_parse(s: Seq<char>) -> Option<Seq<char>>;

/// Relies on language-tags' `LanguageTag::parse` to validate a tag, and on
/// its `Display` for the canonical text; both depend on the input alone.
#[verifier::external_body]
fn parse_lang_tag(s: &str) -> (r: Option<String>)
    ensures
        (match r {
            Some(t) => lang_tag_parse(s@) == Some(t@),
            None => lang_tag_parse(s@) is None,
        }),
{
    match language_tags::LanguageTag::parse(s) {
        Ok(t) => Some(t.to_string()),
        Err(_) => None,
    }
}

// ---------------------------------------------------------------------------
// Link values
// ---------------------------------------------------------------------------

/// One `link-value` of a `Link` header: the target IRI and its parameters.
#[derive(Clone, PartialEq, Debug)]
pub struct LinkValue {
    /// Target IRI: `link-value`
    link: Uri,
    /// Forward Relation Types: `rel`
    rel: Option<Vec<RelationType>>,
    /// Context IRI: `anchor`
    anchor: Option<Uri>,
    /// Reverse Relation Types: `rev`
    rev: Option<Vec<RelationType>>,
    /// Language Tags: `hreflang`
    href_lang: Option<Vec<String>>,
    /// Media Descriptors: `media`
    media_desc: Option<Vec<MediaDesc>>,
    /// Quoted String: `title`
    title: Option<String>,
    /// Extended Value: `title*`
    title_star: Option<String>,
    /// Media Type: `type`, as its serialized text
    media_type: Option<String>,
    /// Link Extension: `link-extensions`
    link_extension: Option<String>,
}

/// The abstract form of a [`LinkValue`].
#[verifier::ext_equal]
pub struct LinkValueV {
    pub link: Seq<char>,
    pub rel: Option<Seq<RelationTypeV>>,
    pub anchor: Option<Seq<char>>,
    pub rev: Option<Seq<RelationTypeV>>,
    pub href_lang: Option<Seq<Seq<char>>>,
    pub media_desc: Option<Seq<MediaDescV>>,
    pub title: Option<Seq<char>>,
    pub title_star: Option<Seq<char>>,
    pub media_type: Option<Seq<char>>,
    pub link_extension: Option<Seq<char>>,
}

/// The view of an optional value.
pub open spec fn opt_view<T: View>(o: Option<T>) -> Option<T::V> {
    match o {
        Some(x) => Some(x@),
        None => None,
    }
}

/// The deep view of an optional vector.
pub open spec fn opt_vec_view<T: View>(o: Option<Vec<T>>) -> Option<Seq<T::V>> {
    match o {
        Some(v) => Some(v@.map_values(|x: T| x@)),
        None => None,
    }
}

impl View for LinkValue {
    type V = LinkValueV;

    closed spec fn view(&self) -> LinkValueV {
        LinkValueV {
            link: self.link@,
            rel: opt_vec_view(self.rel),
            anchor: opt_view(self.anchor),
            rev: opt_vec_view(self.rev),
            href_lang: opt_vec_view(self.href_lang),
            media_desc: opt_vec_view(self.media_desc),
            title: opt_view(self.title),
            title_star: opt_view(self.title_star),
            media_type: opt_view(self.media_type),
            link_extension: opt_view(self.link_extension),
        }
    }
}

/// A fresh `link-value`: a target IRI and no parameters.
pub open spec fn fresh_link_value(link: Seq<char>) -> LinkValueV {
    LinkValueV {
        link,
        rel: None,
        anchor: None,
        rev: None,
        href_lang: None,
        media_desc: None,
        title: None,
        title_star: None,
        media_type: None,
        link_extension: None,
    }
}

impl LinkValue {
    /// Creates a `link-value` from a URI reference; rejects a malformed one
    /// as a malformed header field.
    pub fn new(uri: &str) -> (r: HttpResult<LinkValue>)
        ensures
            match r {
                Ok(v) => uri_valid(uri@) && v@ == fresh_link_value(uri@),
                Err(e) => !uri_valid(uri@) && e is HttpHeaderError,
            },
    {
        match Uri::new(uri) {
            Err(e) => Err(e),
            Ok(u) => Ok(
                LinkValue {
                    link: u,
                    rel: None,
                    anchor: None,
                    rev: None,
                    href_lang: None,
                    media_desc: None,
                    title: None,
                    title_star: None,
                    media_type: None,
                    link_extension: None,
                },
            ),
        }
    }

    /// Get the LinkValue's value
    pub fn link(&self) -> (r: &Uri)
        ensures
            r@ == self@.link,
    {
        &self.link
    }

    /// Get the LinkValue's `rel` parameter
    pub fn rel(&self) -> (r: Option<&Vec<RelationType>>)
        ensures
            match r {
                Some(v) => self@.rel == Some(v@.map_values(|x: RelationType| x@)),
                None => self@.rel is None,
            },
    {
        self.rel.as_ref()
    }

    /// Get the LinkValue's `anchor` parameter
    pub fn anchor(&self) -> (r: Option<&Uri>)
        ensures
            match r {
                Some(u) => self@.anchor == Some(u@),
                None => self@.anchor is None,
            },
    {
        self.anchor.as_ref()
    }

    /// Get the LinkValue's `rev` parameter
    pub fn rev(&self) -> (r: Option<&Vec<RelationType>>)
        ensures
            match r {
                Some(v) => self@.rev == Some(v@.map_values(|x: RelationType| x@)),
                None => self@.rev is None,
            },
    {
        self.rev.as_ref()
    }

    /// Get the LinkValue's `hreflang` parameter
    pub fn href_lang(&self) -> (r: Option<&Vec<String>>)
        ensures
            match r {
                Some(v) => self@.href_lang == Some(v@.map_values(|x: String| x@)),
                None => self@.href_lang is None,
            },
    {
        self.href_lang.as_ref()
    }

    /// Get the LinkValue's `media` parameter
    pub fn media_desc(&self) -> (r: Option<&Vec<MediaDesc>>)
        ensures
            match r {
                Some(v) => self@.media_desc == Some(v@.map_values(|x: MediaDesc| x@)),
                None => self@.media_desc is None,
            },
    {
        self.media_desc.as_ref()
    }

    /// Get the LinkValue's `title` parameter
    pub fn title(&self) -> (r: Option<&String>)
        ensures
            match r {
                Some(t) => self@.title == Some(t@),
                None => self@.title is None,
            },
    {
        self.title.as_ref()
    }

    /// Get the LinkValue's `title*` parameter
    pub fn title_star(&self) -> (r: Option<&String>)
        ensures
            match r {
                Some(t) => self@.title_star == Some(t@),
                None => self@.title_star is None,
            },
    {
        self.title_star.as_ref()
    }

    /// Get the LinkValue's `type` parameter, as its serialized text
    pub fn media_type(&self) -> (r: Option<&String>)
        ensures
            match r {
                Some(t) => self@.media_type == Some(t@),
                None => self@.media_type is None,
            },
    {
        self.media_type.as_ref()
    }

    /// Get the LinkValue's `link-extension` parameter
    pub fn link_extension(&self) -> (r: Option<&String>)
        ensures
            match r {
                Some(t) => self@.link_extension == Some(t@),
                None => self@.link_extension is None,
            },
    {
        self.link_extension.as_ref()
    }

    /// Update LinkValue's `rel` parameter
    pub fn push_rel(self, rel: RelationType) -> (r: LinkValue)
        ensures
            r@ == (LinkValueV {
                rel: Some(
                    (match self@.rel {
                        Some(v) => v,
                        None => Seq::empty(),
                    }).push(rel@),
                ),
                ..self@
            }),
    {
        let mut this = self;
        let ghost before = this@;
        let mut v = match this.rel.take() {
            Some(v) => v,
            None => Vec::new(),
        };
        let ghost vv = v@;
        v.push(rel);
        this.rel = Some(v);
        proof {
            assert(v@.map_values(|x: RelationType| x@) =~= vv.map_values(|x: RelationType| x@).push(
                rel@,
            ));
        }
        this
    }

    /// Set LinkValue's `anchor` parameter
    pub fn set_anchor(self, anchor: &str) -> (r: HttpResult<LinkValue>)
        ensures
            match r {
                Ok(v) => uri_valid(anchor@) && v@ == (LinkValueV { anchor: Some(anchor@), ..self@ }),
                Err(e) => !uri_valid(anchor@) && e is HttpHeaderError,
            },
    {
        match Uri::new(anchor) {
            Err(e) => Err(e),
            Ok(uri) => {
                let mut this = self;
                this.anchor = Some(uri);
                Ok(this)
            },
        }
    }

    /// Update LinkValue's `rev` parameter
    pub fn push_rev(self, rev: RelationType) -> (r: LinkValue)
        ensures
            r@ == (LinkValueV {
                rev: Some(
                    (match self@.rev {
                        Some(v) => v,
                        None => Seq::empty(),
                    }).push(rev@),
                ),
                ..self@
            }),
    {
        let mut this = self;
        let mut v = match this.rev.take() {
            Some(v) => v,
            None => Vec::new(),
        };
        let ghost vv = v@;
        v.push(rev);
        this.rev = Some(v);
        proof {
            assert(v@.map_values(|x: RelationType| x@) =~= vv.map_values(|x: RelationType| x@).push(
                rev@,
            ));
        }
        this
    }

    /// Update LinkValue's `hreflang` parameter
    pub fn push_href_lang(self, language_tag: &str) -> (r: LinkValue)
        ensures
            r@ == (LinkValueV {
                href_lang: Some(
                    (match self@.href_lang {
                        Some(v) => v,
                        None => Seq::empty(),
                    }).push(language_tag@),
                ),
                ..self@
            }),
    {
        let mut this = self;
        let mut v = match this.href_lang.take() {
            Some(v) => v,
            None => Vec::new(),
        };
        let ghost vv = v@;
        v.push(String::from_str(language_tag));
        this.href_lang = Some(v);
        proof {
            assert(v@.map_values(|x: String| x@) =~= vv.map_values(|x: String| x@).push(
                language_tag@,
            ));
        }
        this
    }

    /// Update LinkValue's `media` parameter
    pub fn push_media_desc(self, media_desc: MediaDesc) -> (r: LinkValue)
        ensures
            r@ == (LinkValueV {
                media_desc: Some(
                    (match self@.media_desc {
                        Some(v) => v,
                        None => Seq::empty(),
                    }).push(media_desc@),
                ),
                ..self@
            }),
    {
        let mut this = self;
        let ghost mdv = media_desc@;
        let mut v = match this.media_desc.take() {
            Some(v) => v,
            None => Vec::new(),
        };
        let ghost vv = v@;
        v.push(media_desc);
        this.media_desc = Some(v);
        proof {
            assert(v@.map_values(|x: MediaDesc| x@) =~= vv.map_values(|x: MediaDesc| x@).push(mdv));
        }
        this
    }

    /// Set LinkValue's `title` parameter
    pub fn set_title(self, title: &str) -> (r: LinkValue)
        ensures
            r@ == (LinkValueV { title: Some(title@), ..self@ }),
    {
        let mut this = self;
        this.title = Some(String::from_str(title));
        this
    }

    /// Set LinkValue's `title*` parameter
    pub fn set_title_star(self, title_star: &str) -> (r: LinkValue)
        ensures
            r@ == (LinkValueV { title_star: Some(title_star@), ..self@ }),
    {
        let mut this = self;
        this.title_star = Some(String::from_str(title_star));
        this
    }

    /// Set LinkValue's `type` parameter, given as its serialized text
    pub fn set_media_type(self, media_type: &str) -> (r: LinkValue)
        ensures
            r@ == (LinkValueV { media_type: Some(media_type@), ..self@ }),
    {
        let mut this = self;
        this.media_type = Some(String::from_str(media_type));
        this
    }

    /// Set LinkValue's `link-extension` parameter
    pub fn set_link_extension(self, link_extension: &str) -> (r: LinkValue)
        ensures
            r@ == (LinkValueV { link_extension: Some(link_extension@), ..self@ }),
    {
        let mut this = self;
        this.link_extension = Some(String::from_str(link_extension));
        this
    }
}

// ---------------------------------------------------------------------------
// Link value serialization
// ---------------------------------------------------------------------------

/// Like [`joined_text`], over already-serialized parts.
pub open spec fn joined_texts(parts: Seq<Seq<char>>, d: Seq<char>, i: int) -> Seq<char>
    decreases parts.len() - i,
{
    if i < 0 || i >= parts.len() {
        Seq::empty()
    } else {
        d + parts[i] + joined_texts(parts, d, i + 1)
    }
}

/// Like [`delimited_text`], over already-serialized parts.
pub open spec fn wrapped_texts(
    parts: Seq<Seq<char>>,
    d: Seq<char>,
    s: Seq<char>,
    e: Seq<char>,
) -> Seq<char> {
    if parts.len() == 0 {
        Seq::empty()
    } else {
        s + parts[0] + joined_texts(parts, d, 1) + e
    }
}

proof fn lemma_joined_text_view<T: HeaderText>(p: Seq<T>, d: Seq<char>, i: int)
    ensures
        joined_text(p, d, i) == joined_texts(p.map_values(|x: T| x.text_of()), d, i),
    decreases p.len() - i,
{
    let parts = p.map_values(|x: T| x.text_of());
    if 0 <= i < p.len() {
        lemma_joined_text_view::<T>(p, d, i + 1);
        assert(parts[i] == p[i].text_of());
    }
}

/// A delimited list's serialization depends only on the parts' texts.
proof fn lemma_delimited_text_view<T: HeaderText>(
    p: Seq<T>,
    d: Seq<char>,
    s: Seq<char>,
    e: Seq<char>,
)
    ensures
        delimited_text(p, d, s, e) == wrapped_texts(p.map_values(|x: T| x.text_of()), d, s, e),
{
    let parts = p.map_values(|x: T| x.text_of());
    if p.len() > 0 {
        lemma_joined_text_view::<T>(p, d, 1);
        assert(parts[0] == p[0].text_of());
    }
}

/// The texts of a list of relation types.
pub open spec fn rel_texts(rs: Seq<RelationTypeV>) -> Seq<Seq<char>> {
    rs.map_values(|r: RelationTypeV| rel_text(r))
}

/// The texts of a list of media descriptors.
pub open spec fn media_texts(ms: Seq<MediaDescV>) -> Seq<Seq<char>> {
    ms.map_values(|m: MediaDescV| media_desc_text(m))
}

/// One `; hreflang=` parameter per language tag, from index `i` on.
pub open spec fn hreflang_text(tags: Seq<Seq<char>>, i: int) -> Seq<char>
    decreases tags.len() - i,
{
    if i < 0 || i >= tags.len() {
        Seq::empty()
    } else {
        "; hreflang="@ + tags[i] + hreflang_text(tags, i + 1)
    }
}

/// The `rel` or `rev` parameter's serialization: the relation list joined
/// by spaces inside quotes, or nothing when absent.
pub open spec fn rel_like_section(o: Option<Seq<RelationTypeV>>, start: Seq<char>) -> Seq<char> {
    match o {
        Some(r) => wrapped_texts(rel_texts(r), " "@, start, "\""@),
        None => Seq::empty(),
    }
}

/// A text parameter's serialization: the text between `start` and `end`, or
/// nothing when absent.
pub open spec fn text_section(o: Option<Seq<char>>, start: Seq<char>, end: Seq<char>) -> Seq<
    char,
> {
    match o {
        Some(t) => start + t + end,
        None => Seq::empty(),
    }
}

/// The `hreflang` parameters' serialization: one per tag, or nothing.
pub open spec fn hreflang_section(o: Option<Seq<Seq<char>>>) -> Seq<char> {
    match o {
        Some(l) => hreflang_text(l, 0),
        None => Seq::empty(),
    }
}

/// The `media` parameter's serialization.
pub open spec fn media_section(o: Option<Seq<MediaDescV>>) -> Seq<char> {
    match o {
        Some(m) => wrapped_texts(media_texts(m), ", "@, "; media=\""@, "\""@),
        None => Seq::empty(),
    }
}

/// The full serialization of one `link-value`: the target IRI in angle
/// brackets, then each present parameter in a fixed order.
pub open spec fn link_value_text(v: LinkValueV) -> Seq<char> {
    "<"@ + v.link + ">"@ + rel_like_section(v.rel, "; rel=\""@) + text_section(
        v.anchor,
        "; anchor=\""@,
        "\""@,
    ) + rel_like_section(v.rev, "; rev=\""@) + hreflang_section(v.href_lang) + media_section(
        v.media_desc,
    ) + text_section(v.title, "; title=\""@, "\""@) + text_section(
        v.title_star,
        "; title*="@,
        ""@,
    ) + text_section(v.media_type, "; type=\""@, "\""@) + text_section(
        v.link_extension,
        "; link-extension="@,
        ""@,
    )
}

/// Writes a `rel` or `rev` parameter.
fn fmt_rel_like(f: &mut String, o: &Option<Vec<RelationType>>, start: &str)
    ensures
        final(f)@ == old(f)@ + rel_like_section(opt_vec_view(*o), start@),
{
    match o {
        Some(rel) => {
            fmt_delimited(f, rel, " ", start, "\"");
            proof {
                lemma_delimited_text_view::<RelationType>(rel@, " "@, start@, "\""@);
                assert(rel@.map_values(|x: RelationType| x.text_of()) =~= rel_texts(
                    rel@.map_values(|x: RelationType| x@),
                ));
            }
        },
        None => {
            proof {
                assert(f@ =~= f@ + rel_like_section(opt_vec_view(*o), start@));
            }
        },
    }
}

/// Writes a plain or quoted text parameter.
fn fmt_text_section(f: &mut String, o: &Option<String>, start: &str, end: &str)
    ensures
        final(f)@ == old(f)@ + text_section(opt_view(*o), start@, end@),
{
    match o {
        Some(t) => {
            f.append(start);
            f.append(t.as_str());
            f.append(end);
        },
        None => {
            proof {
                assert(f@ =~= f@ + text_section(opt_view(*o), start@, end@));
            }
        },
    }
}

/// Writes the `hreflang` parameters, one per tag.
fn fmt_hreflang(f: &mut String, o: &Option<Vec<String>>)
    ensures
        final(f)@ == old(f)@ + hreflang_section(opt_vec_view(*o)),
{
    match o {
        Some(tags) => {
            let ghost vt = tags@.map_values(|x: String| x@);
            let ghost hbase = f@;
            let mut i: usize = 0;
            while i < tags.len()
                invariant
                    0 <= i <= tags@.len(),
                    vt == tags@.map_values(|x: String| x@),
                    f@ + hreflang_text(vt, i as int) == hbase + hreflang_text(vt, 0),
                decreases tags@.len() - i,
            {
                let ghost before = f@;
                f.append("; hreflang=");
                f.append(tags[i].as_str());
                proof {
                    assert(vt[i as int] == tags@[i as int]@);
                    assert(f@ =~= before + ("; hreflang="@ + vt[i as int]));
                    assert(f@ + hreflang_text(vt, i + 1) =~= before + hreflang_text(vt, i as int));
                }
                i += 1;
            }
            proof {
                assert(hreflang_text(vt, tags@.len() as int) =~= Seq::<char>::empty());
                assert(f@ =~= hbase + hreflang_text(vt, 0));
            }
        },
        None => {
            proof {
                assert(f@ =~= f@ + hreflang_section(opt_vec_view(*o)));
            }
        },
    }
}

/// Writes the `media` parameter.
fn fmt_media(f: &mut String, o: &Option<Vec<MediaDesc>>)
    ensures
        final(f)@ == old(f)@ + media_section(opt_vec_view(*o)),
{
    match o {
        Some(media_desc) => {
            fmt_delimited(f, media_desc, ", ", "; media=\"", "\"");
            proof {
                lemma_delimited_text_view::<MediaDesc>(media_desc@, ", "@, "; media=\""@, "\""@);
                assert(media_desc@.map_values(|x: MediaDesc| x.text_of()) =~= media_texts(
                    media_desc@.map_values(|x: MediaDesc| x@),
                ));
            }
        },
        None => {
            proof {
                assert(f@ =~= f@ + media_section(opt_vec_view(*o)));
            }
        },
    }
}

impl LinkValue {
    /// Appends this `link-value`'s serialization to `f`.
    #[verifier::rlimit(100)]
    #[verifier::spinoff_prover]
    pub fn fmt(&self, f: &mut String)
        ensures
            final(f)@ == old(f)@ + link_value_text(self@),
    {
        let ghost base = f@;
        let ghost v = self@;
        f.append("<");
        f.append(self.link.as_str());
        f.append(">");
        proof {
            assert(f@ =~= base + ("<"@ + v.link + ">"@));
        }
        fmt_rel_like(f, &self.rel, "; rel=\"");
        match &self.anchor {
            Some(anchor) => {
                f.append("; anchor=\"");
                f.append(anchor.as_str());
                f.append("\"");
            },
            None => {},
        }
        proof {
            assert(f@ =~= base + ("<"@ + v.link + ">"@) + rel_like_section(v.rel, "; rel=\""@)
                + text_section(v.anchor, "; anchor=\""@, "\""@));
        }
        fmt_rel_like(f, &self.rev, "; rev=\"");
        fmt_hreflang(f, &self.href_lang);
        fmt_media(f, &self.media_desc);
        fmt_text_section(f, &self.title, "; title=\"", "\"");
        fmt_text_section(f, &self.title_star, "; title*=", "");
        fmt_text_section(f, &self.media_type, "; type=\"", "\"");
        fmt_text_section(f, &self.link_extension, "; link-extension=", "");
        proof {
            assert(f@ =~= base + link_value_text(v));
        }
    }
}

impl HeaderText for LinkValue {
    open spec fn text_of(&self) -> Seq<char> {
        link_value_text(self@)
    }

    fn write_text(&self, f: &mut String) {
        self.fmt(f)
    }
}

// ---------------------------------------------------------------------------
// Quote-aware splitting
// ---------------------------------------------------------------------------

/// The end of the segment starting at `i`: the first position at or after
/// `i` holding a delimiter outside double quotes, or the length. `inq`
/// carries the quote parity so far; a delimiter inside quotes does not end
/// the segment.
pub open spec fn split_uq_end(s: Seq<char>, dels: Seq<char>, i: int, inq: bool) -> int
    decreases s.len() - i,
{
    if i < 0 || i >= s.len() {
        s.len() as int
    } else {
        let inq2 = inq != (s[i] == '"');
        if !inq2 && dels.contains(s[i]) {
            i
        } else {
            split_uq_end(s, dels, i + 1, inq2)
        }
    }
}

proof fn lemma_split_uq_end_bounds(s: Seq<char>, dels: Seq<char>, i: int, inq: bool)
    requires
        0 <= i <= s.len(),
    ensures
        i <= split_uq_end(s, dels, i, inq) <= s.len(),
    decreases s.len() - i,
{
    if i < s.len() {
        let inq2 = inq != (s[i] == '"');
        if !(!inq2 && dels.contains(s[i])) {
            lemma_split_uq_end_bounds(s, dels, i + 1, inq2);
        }
    }
}

/// The segments of `s` from position `pos` on, split at unquoted
/// delimiters. An empty input has no segments; a trailing delimiter adds
/// none.
pub open spec fn split_uq_segments(s: Seq<char>, dels: Seq<char>, pos: int) -> Seq<Seq<char>>
    decreases s.len() - pos,
        when 0 <= pos via split_uq_segments_decreases
{
    if pos < 0 || pos >= s.len() {
        Seq::empty()
    } else {
        let e = split_uq_end(s, dels, pos, false);
        if e >= s.len() {
            seq![s.subrange(pos, s.len() as int)]
        } else {
            seq![s.subrange(pos, e)] + split_uq_segments(s, dels, e + 1)
        }
    }
}

#[via_fn]
proof fn split_uq_segments_decreases(s: Seq<char>, dels: Seq<char>, pos: int) {
    if 0 <= pos < s.len() {
        lemma_split_uq_end_bounds(s, dels, pos, false);
    }
}

/// Whether `d` contains the character `c`.
fn contains_char(d: &str, c: char) -> (r: bool)
    ensures
        r == d@.contains(c),
{
    let n = d.unicode_len();
    let mut i: usize = 0;
    while i < n
        invariant
            n == d@.len(),
            0 <= i <= n,
            forall|j: int| 0 <= j < i ==> d@[j] != c,
        decreases n - i,
    {
        if d.get_char(i) == c {
            proof {
                assert(d@.contains(c)) by {
                    assert(d@[i as int] == c);
                }
            }
            return true;
        }
        i += 1;
    }
    false
}

/// An iterator over the fields of a header line, splitting at any of a set
/// of delimiter characters, but never inside a double-quoted span.
pub struct SplitAsciiUnquoted<'a> {
    src: &'a str,
    pos: usize,
    len: usize,
    del: &'a str,
}

impl<'a> SplitAsciiUnquoted<'a> {
    pub closed spec fn src_of(self) -> Seq<char> {
        self.src@
    }

    pub closed spec fn del_of(self) -> Seq<char> {
        self.del@
    }

    pub closed spec fn pos_of(self) -> int {
        self.pos as int
    }

    pub closed spec fn wf(self) -> bool {
        self.len == self.src@.len() && self.pos <= self.len
    }

    /// Starts splitting `s` at the delimiters in `d`.
    pub fn new(s: &'a str, d: &'a str) -> (r: SplitAsciiUnquoted<'a>)
        ensures
            r.wf(),
            r.src_of() == s@,
            r.del_of() == d@,
            r.pos_of() == 0,
    {
        SplitAsciiUnquoted { src: s, pos: 0, len: s.unicode_len(), del: d }
    }

    /// The next field: the characters up to the next unquoted delimiter, or
    /// up to the end; nothing once the input is exhausted.
    pub fn next(&mut self) -> (r: Option<&'a str>)
        requires
            old(self).wf(),
        ensures
            final(self).wf(),
            final(self).src_of() == old(self).src_of(),
            final(self).del_of() == old(self).del_of(),
            (if old(self).pos_of() < old(self).src_of().len() {
                let e = split_uq_end(
                    old(self).src_of(),
                    old(self).del_of(),
                    old(self).pos_of(),
                    false,
                );
                &&& (r matches Some(seg) && seg@ == old(self).src_of().subrange(
                    old(self).pos_of(),
                    e,
                ))
                &&& final(self).pos_of() == (if e < old(self).src_of().len() {
                    e + 1
                } else {
                    old(self).src_of().len() as int
                })
            } else {
                r is None && final(self).pos_of() == old(self).pos_of()
            }),
    {
        if self.pos < self.len {
            let prev_pos = self.pos;
            let mut pos = self.pos;
            let mut in_quotes = false;
            let ghost s = self.src@;
            let ghost d = self.del@;
            loop
                invariant_except_break
                    prev_pos <= pos <= self.len,
                    self.len == s.len(),
                    s == self.src@,
                    d == self.del@,
                    split_uq_end(s, d, prev_pos as int, false) == split_uq_end(
                        s,
                        d,
                        pos as int,
                        in_quotes,
                    ),
                ensures
                    prev_pos <= pos <= self.len,
                    self.len == s.len(),
                    s == self.src@,
                    d == self.del@,
                    split_uq_end(s, d, prev_pos as int, false) == pos as int,
                decreases self.len - pos,
            {
                if pos >= self.len {
                    break;
                }
                let ghost inq0 = in_quotes;
                let c = self.src.get_char(pos);
                in_quotes = in_quotes != (c == '"');
                if !in_quotes && contains_char(self.del, c) {
                    proof {
                        assert(split_uq_end(s, d, pos as int, inq0) == pos as int);
                    }
                    break;
                }
                pos += 1;
            }
            self.pos = if pos < self.len {
                pos + 1
            } else {
                self.len
            };
            Some(self.src.substring_char(prev_pos, pos))
        } else {
            None
        }
    }
}

// ---------------------------------------------------------------------------
// The Link header
// ---------------------------------------------------------------------------

/// The `Link` header: a list of `link-value`s.
#[derive(Clone, PartialEq, Debug)]
pub struct Link {
    /// All the `link-value`s of the header
    pub values: Vec<LinkValue>,
}

impl View for Link {
    type V = Seq<LinkValueV>;

    open spec fn view(&self) -> Seq<LinkValueV> {
        self.values@.map_values(|lv: LinkValue| lv@)
    }
}

/// The serialization of a `Link` header: its values joined by `, `.
pub open spec fn link_text(vs: Seq<LinkValueV>) -> Seq<char> {
    wrapped_texts(vs.map_values(|v: LinkValueV| link_value_text(v)), ", "@, ""@, ""@)
}

impl Link {
    /// Create Link from a `Vec<LinkValue>`
    pub fn new(link_values: Vec<LinkValue>) -> (r: Link)
        ensures
            r@ == link_values@.map_values(|lv: LinkValue| lv@),
    {
        Link { values: link_values }
    }

    /// Appends this header's serialization to `f`.
    pub fn fmt(&self, f: &mut String)
        ensures
            final(f)@ == old(f)@ + link_text(self@),
    {
        fmt_delimited(f, &self.values, ", ", "", "");
        proof {
            lemma_delimited_text_view::<LinkValue>(self.values@, ", "@, ""@, ""@);
            assert(self.values@.map_values(|x: LinkValue| x.text_of()) =~= self@.map_values(
                |v: LinkValueV| link_value_text(v),
            ));
        }
    }
}

// ---------------------------------------------------------------------------
// Parsing a Link header
// ---------------------------------------------------------------------------

/// Applies one `link-param` to the `link-value` under construction, by its
/// (case-folded) name. A repeated `rel`, `rev`, `media`, `title`, `title*`,
/// `type` or `link-extension` is silently kept as first set; `anchor`
/// overwrites; `hreflang` accumulates. An unknown name, a missing value
/// where one is needed, or a malformed value rejects the header.
pub open spec fn parse_param(
    lv: LinkValueV,
    name: Seq<char>,
    rest: Option<Seq<char>>,
) -> Option<LinkValueV> {
    if eq_ci_seq(name, "rel"@) {
        if lv.rel is Some {
            Some(lv)
        } else {
            match rest {
                None => None,
                Some(r) => match delim_parse::<RelationType>(
                    trim_class(TrimClass::Quote, trim_class(TrimClass::Space, r)),
                    ' ',
                ) {
                    None => None,
                    Some(v) => Some(LinkValueV { rel: Some(v), ..lv }),
                },
            }
        }
    } else if eq_ci_seq(name, "anchor"@) {
        match rest {
            None => None,
            Some(r) => match verify_and_trim_spec(trim_class(TrimClass::Space, r), '"', '"') {
                None => None,
                Some(a) => if uri_valid(a) {
                    Some(LinkValueV { anchor: Some(a), ..lv })
                } else {
                    None
                },
            },
        }
    } else if eq_ci_seq(name, "rev"@) {
        if lv.rev is Some {
            Some(lv)
        } else {
            match rest {
                None => None,
                Some(r) => match delim_parse::<RelationType>(
                    trim_class(TrimClass::Quote, trim_class(TrimClass::Space, r)),
                    ' ',
                ) {
                    None => None,
                    Some(v) => Some(LinkValueV { rev: Some(v), ..lv }),
                },
            }
        }
    } else if eq_ci_seq(name, "hreflang"@) {
        match rest {
            None => None,
            Some(r) => match lang_tag_parse(trim_class(TrimClass::Space, r)) {
                None => None,
                Some(t) => Some(
                    LinkValueV {
                        href_lang: Some(
                            (match lv.href_lang {
                                Some(l) => l,
                                None => Seq::empty(),
                            }).push(t),
                        ),
                        ..lv
                    },
                ),
            },
        }
    } else if eq_ci_seq(name, "media"@) {
        if lv.media_desc is Some {
            Some(lv)
        } else {
            match rest {
                None => None,
                Some(r) => match delim_parse::<MediaDesc>(
                    trim_class(TrimClass::Quote, trim_class(TrimClass::Space, r)),
                    ',',
                ) {
                    None => None,
                    Some(v) => Some(LinkValueV { media_desc: Some(v), ..lv }),
                },
            }
        }
    } else if eq_ci_seq(name, "title"@) {
        if lv.title is Some {
            Some(lv)
        } else {
            match rest {
                None => None,
                Some(r) => match verify_and_trim_spec(trim_class(TrimClass::Space, r), '"', '"') {
                    None => None,
                    Some(t) => Some(LinkValueV { title: Some(t), ..lv }),
                },
            }
        }
    } else if eq_ci_seq(name, "title*"@) {
        if lv.title_star is Some {
            Some(lv)
        } else {
            match rest {
                None => None,
                Some(r) => Some(
                    LinkValueV { title_star: Some(trim_class(TrimClass::Space, r)), ..lv },
                ),
            }
        }
    } else if eq_ci_seq(name, "type"@) {
        if lv.media_type is Some {
            Some(lv)
        } else {
            match rest {
                None => None,
                Some(r) => match verify_and_trim_spec(trim_class(TrimClass::Space, r), '"', '"') {
                    None => None,
                    Some(t) => match media_type_parse(t) {
                        None => None,
                        Some(m) => Some(LinkValueV { media_type: Some(m), ..lv }),
                    },
                },
            }
        }
    } else if eq_ci_seq(name, "link-extension"@) {
        if lv.link_extension is Some {
            Some(lv)
        } else {
            match rest {
                None => None,
                Some(r) => Some(
                    LinkValueV { link_extension: Some(trim_class(TrimClass::Space, r)), ..lv },
                ),
            }
        }
    } else {
        None
    }
}

/// Applies one segment of the split header line: a `<`-led segment opens a
/// new `link-value` with its target IRI; any other segment is a parameter
/// of the most recent `link-value`, which must exist.
pub open spec fn parse_segment(seg: Seq<char>, acc: Seq<LinkValueV>) -> Option<Seq<LinkValueV>> {
    let t = trim_class(TrimClass::Space, seg);
    if t.len() > 0 && t[0] == '<' {
        match verify_and_trim_spec(t, '<', '>') {
            None => None,
            Some(u) => if uri_valid(u) {
                Some(acc.push(fresh_link_value(u)))
            } else {
                None
            },
        }
    } else if acc.len() == 0 {
        None
    } else {
        let eq = find_char(seg, '=', 0);
        let name = trim_class(TrimClass::Space, seg.subrange(0, eq));
        let rest: Option<Seq<char>> = if eq < seg.len() {
            Some(seg.subrange(eq + 1, seg.len() as int))
        } else {
            None
        };
        match parse_param(acc.last(), name, rest) {
            None => None,
            Some(lv) => Some(acc.update(acc.len() - 1, lv)),
        }
    }
}

/// Applies every segment, left to right, to the growing list of
/// `link-value`s.
pub open spec fn parse_segments(segs: Seq<Seq<char>>, acc: Seq<LinkValueV>) -> Option<
    Seq<LinkValueV>,
>
    decreases segs.len(),
{
    if segs.len() == 0 {
        Some(acc)
    } else {
        match parse_segment(segs[0], acc) {
            None => None,
            Some(acc2) => parse_segments(segs.drop_first(), acc2),
        }
    }
}

/// What parsing a whole `Link` header line yields.
pub open spec fn link_parse(s: Seq<char>) -> Option<Seq<LinkValueV>> {
    parse_segments(split_uq_segments(s, ";,"@, 0), Seq::empty())
}

/// Applies one `link-param` to the `link-value` under construction.
fn process_param(lv: LinkValue, name: &str, rest: Option<&str>) -> (r: HttpResult<LinkValue>)
    ensures
        match r {
            Ok(out) => parse_param(lv@, name@, opt_view(rest)) == Some(out@),
            Err(e) => parse_param(lv@, name@, opt_view(rest)) is None && e is HttpHeaderError,
        },
{
    let mut this = lv;
    if eq_ignore_case(name, "rel") {
        if this.rel.is_some() {
            Ok(this)
        } else {
            match rest {
                None => Err(HttpError::HttpHeaderError),
                Some(r) => match from_str_delimited::<RelationType>(
                    trim_matching(trim_matching(r, TrimClass::Space), TrimClass::Quote),
                    ' ',
                ) {
                    Err(e) => Err(e),
                    Ok(v) => {
                        this.rel = Some(v);
                        Ok(this)
                    },
                },
            }
        }
    } else if eq_ignore_case(name, "anchor") {
        match rest {
            None => Err(HttpError::HttpHeaderError),
            Some(r) => match verify_and_trim(trim_matching(r, TrimClass::Space), 34u8, 34u8) {
                Err(e) => Err(e),
                Ok(a) => match Uri::new(a) {
                    Err(e) => Err(e),
                    Ok(u) => {
                        this.anchor = Some(u);
                        Ok(this)
                    },
                },
            },
        }
    } else if eq_ignore_case(name, "rev") {
        if this.rev.is_some() {
            Ok(this)
        } else {
            match rest {
                None => Err(HttpError::HttpHeaderError),
                Some(r) => match from_str_delimited::<RelationType>(
                    trim_matching(trim_matching(r, TrimClass::Space), TrimClass::Quote),
                    ' ',
                ) {
                    Err(e) => Err(e),
                    Ok(v) => {
                        this.rev = Some(v);
                        Ok(this)
                    },
                },
            }
        }
    } else if eq_ignore_case(name, "hreflang") {
        match rest {
            None => Err(HttpError::HttpHeaderError),
            Some(r) => match parse_lang_tag(trim_matching(r, TrimClass::Space)) {
                None => Err(HttpError::HttpHeaderError),
                Some(t) => {
                    let mut v = match this.href_lang.take() {
                        Some(v) => v,
                        None => Vec::new(),
                    };
                    let ghost vv = v@;
                    v.push(t);
                    this.href_lang = Some(v);
                    proof {
                        assert(v@.map_values(|x: String| x@) =~= vv.map_values(|x: String| x@)
                            .push(v@[v@.len() - 1]@));
                    }
                    Ok(this)
                },
            },
        }
    } else if eq_ignore_case(name, "media") {
        if this.media_desc.is_some() {
            Ok(this)
        } else {
            match rest {
                None => Err(HttpError::HttpHeaderError),
                Some(r) => match from_str_delimited::<MediaDesc>(
                    trim_matching(trim_matching(r, TrimClass::Space), TrimClass::Quote),
                    ',',
                ) {
                    Err(e) => Err(e),
                    Ok(v) => {
                        this.media_desc = Some(v);
                        Ok(this)
                    },
                },
            }
        }
    } else if eq_ignore_case(name, "title") {
        if this.title.is_some() {
            Ok(this)
        } else {
            match rest {
                None => Err(HttpError::HttpHeaderError),
                Some(r) => match verify_and_trim(trim_matching(r, TrimClass::Space), 34u8, 34u8) {
                    Err(e) => Err(e),
                    Ok(t) => {
                        this.title = Some(String::from_str(t));
                        Ok(this)
                    },
                },
            }
        }
    } else if eq_ignore_case(name, "title*") {
        if this.title_star.is_some() {
            Ok(this)
        } else {
            match rest {
                None => Err(HttpError::HttpHeaderError),
                Some(r) => {
                    this.title_star = Some(String::from_str(trim_matching(r, TrimClass::Space)));
                    Ok(this)
                },
            }
        }
    } else if eq_ignore_case(name, "type") {
        if this.media_type.is_some() {
            Ok(this)
        } else {
            match rest {
                None => Err(HttpError::HttpHeaderError),
                Some(r) => match verify_and_trim(trim_matching(r, TrimClass::Space), 34u8, 34u8) {
                    Err(e) => Err(e),
                    Ok(t) => match parse_media_type(t) {
                        None => Err(HttpError::HttpHeaderError),
                        Some(m) => {
                            this.media_type = Some(m);
                            Ok(this)
                        },
                    },
                },
            }
        }
    } else if eq_ignore_case(name, "link-extension") {
        if this.link_extension.is_some() {
            Ok(this)
        } else {
            match rest {
                None => Err(HttpError::HttpHeaderError),
                Some(r) => {
                    this.link_extension = Some(
                        String::from_str(trim_matching(r, TrimClass::Space)),
                    );
                    Ok(this)
                },
            }
        }
    } else {
        Err(HttpError::HttpHeaderError)
    }
}

/// Applies one segment of the split header line to the growing list of
/// `link-value`s. On an error the list is left in an unspecified state; the
/// caller discards it.
fn process_segment(values: &mut Vec<LinkValue>, seg: &str) -> (r: HttpResult<()>)
    ensures
        match r {
            Ok(_) => parse_segment(seg@, old(values)@.map_values(|lv: LinkValue| lv@)) == Some(
                final(values)@.map_values(|lv: LinkValue| lv@),
            ),
            Err(e) => parse_segment(seg@, old(values)@.map_values(|lv: LinkValue| lv@)) is None
                && e is HttpHeaderError,
        },
{
    let t = trim_matching(seg, TrimClass::Space);
    if t.unicode_len() > 0 && t.get_char(0) == '<' {
        match verify_and_trim(t, 60u8, 62u8) {
            Err(e) => Err(e),
            Ok(link_url) => match Uri::new(link_url) {
                Err(e) => Err(e),
                Ok(uri) => {
                    let ghost before = values@.map_values(|lv: LinkValue| lv@);
                    values.push(
                        LinkValue {
                            link: uri,
                            rel: None,
                            anchor: None,
                            rev: None,
                            href_lang: None,
                            media_desc: None,
                            title: None,
                            title_star: None,
                            media_type: None,
                            link_extension: None,
                        },
                    );
                    proof {
                        assert(values@.map_values(|lv: LinkValue| lv@) =~= before.push(
                            fresh_link_value(link_url@),
                        ));
                    }
                    Ok(())
                },
            },
        }
    } else {
        let n = seg.unicode_len();
        let mut e: usize = 0;
        while e < n && seg.get_char(e) != '='
            invariant
                n == seg@.len(),
                0 <= e <= n,
                forall|j: int| 0 <= j < e ==> seg@[j] != '=',
            decreases n - e,
        {
            e += 1;
        }
        proof {
            lemma_find_char_at(seg@, '=', 0, e as int);
        }
        let name = trim_matching(seg.substring_char(0, e), TrimClass::Space);
        if values.len() == 0 {
            return Err(HttpError::HttpHeaderError);
        }
        let rest: Option<&str> = if e < n {
            Some(seg.substring_char(e + 1, n))
        } else {
            None
        };
        let ghost before = values@.map_values(|lv: LinkValue| lv@);
        let lv = match values.pop() {
            Some(lv) => lv,
            None => unreached(),
        };
        proof {
            assert(lv@ == before.last());
        }
        match process_param(lv, name, rest) {
            Err(err) => Err(err),
            Ok(out) => {
                values.push(out);
                proof {
                    assert(values@.map_values(|lv2: LinkValue| lv2@) =~= before.update(
                        before.len() - 1,
                        out@,
                    ));
                }
                Ok(())
            },
        }
    }
}

impl Link {
    /// Parses a `Link` header line: `link-value`s and their parameters,
    /// split at unquoted `;` and `,`. Yields exactly what [`link_parse`]
    /// describes, or rejects the line as a malformed header field.
    pub fn from_str(s: &str) -> (r: HttpResult<Link>)
        ensures
            match r {
                Ok(l) => link_parse(s@) == Some(l@),
                Err(e) => link_parse(s@) is None && e is HttpHeaderError,
            },
    {
        let mut link_split = SplitAsciiUnquoted::new(s, ";,");
        let mut values: Vec<LinkValue> = Vec::new();
        proof {
            assert(values@.map_values(|lv: LinkValue| lv@) =~= Seq::<LinkValueV>::empty());
        }
        loop
            invariant
                link_split.wf(),
                link_split.src_of() == s@,
                link_split.del_of() == ";,"@,
                0 <= link_split.pos_of() <= s@.len(),
                (match parse_segments(
                    split_uq_segments(s@, ";,"@, link_split.pos_of()),
                    values@.map_values(|lv: LinkValue| lv@),
                ) {
                    Some(res) => link_parse(s@) == Some(res),
                    None => link_parse(s@) is None,
                }),
            ensures
                link_parse(s@) == Some(values@.map_values(|lv: LinkValue| lv@)),
            decreases s@.len() - link_split.pos_of(),
        {
            let ghost pos0 = link_split.pos_of();
            let ghost acc0 = values@.map_values(|lv: LinkValue| lv@);
            match link_split.next() {
                None => {
                    proof {
                        assert(split_uq_segments(s@, ";,"@, pos0) =~= Seq::<Seq<char>>::empty());
                    }
                    break;
                },
                Some(segment) => {
                    let ghost e = split_uq_end(s@, ";,"@, pos0, false);
                    proof {
                        lemma_split_uq_end_bounds(s@, ";,"@, pos0, false);
                    }
                    match process_segment(&mut values, segment) {
                        Err(err) => {
                            proof {
                                let segs = split_uq_segments(s@, ";,"@, pos0);
                                assert(segs[0] == segment@);
                            }
                            return Err(err);
                        },
                        Ok(()) => {
                            proof {
                                let segs = split_uq_segments(s@, ";,"@, pos0);
                                assert(segs[0] == segment@);
                                let acc1 = values@.map_values(|lv: LinkValue| lv@);
                                assert(parse_segment(segment@, acc0) == Some(acc1));
                                if e < s@.len() {
                                    assert(segs.drop_first() =~= split_uq_segments(
                                        s@,
                                        ";,"@,
                                        link_split.pos_of(),
                                    ));
                                } else {
                                    assert(segs.len() == 1);
                                    assert(segs.drop_first() =~= Seq::<Seq<char>>::empty());
                                    assert(split_uq_segments(s@, ";,"@, link_split.pos_of())
                                        =~= Seq::<Seq<char>>::empty());
                                }
                            }
                        },
                    }
                },
            }
        }
        Ok(Link { values })
    }
}

} // verus!
