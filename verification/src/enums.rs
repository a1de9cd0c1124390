//! Enumerations shared by the XML writers and readers, each with its XML token.
use vstd::prelude::*;
use crate::text::str_to_chars;

verus! {

/// True exactly when the two slices hold the same characters.
pub fn str_eq(a: &str, b: &str) -> (r: bool)
    ensures
        r == (a@ == b@),
{
    let x = str_to_chars(a);
    let y = str_to_chars(b);
    if x.len() != y.len() {
        return false;
    }
    let mut i: usize = 0;
    while i < x.len()
        invariant
            x@ == a@,
            y@ == b@,
            x.len() == y.len(),
            i <= x.len(),
            forall|j: int| 0 <= j < i ==> x@[j] == y@[j],
        decreases x.len() - i,
    {
        if x[i] != y[i] {
            return false;
        }
        i = i + 1;
    }
    assert(x@ =~= y@);
    true
}

/// The kind of action a click or hover on a shape performs.
#[non_exhaustive]
#[derive(Debug, Clone, Copy, PartialEq, Eq, Structural)]
pub enum PpActionType {
    NoAction,
    Hyperlink,
    NamedSlide,
    NextSlide,
    PreviousSlide,
    FirstSlide,
    LastSlide,
    EndShow,
    RunMacro,
    RunProgram,
    OpenFile,
    Play,
}

/// Placeholder type, the `type` attribute of `<p:ph>`.
#[non_exhaustive]
#[derive(Debug, Clone, Copy, PartialEq, Eq, Structural)]
pub enum PpPlaceholderType {
    Title,
    Body,
    CenterTitle,
    Subtitle,
    Date,
    SlideNumber,
    Footer,
    Header,
    Object,
    Chart,
    Table,
    ClipArt,
    OrgChart,
    Media,
    SlideImage,
    Picture,
}

/// The XML token of a placeholder type.
pub open spec fn ph_type_token(t: PpPlaceholderType) -> Seq<char> {
    match t {
        PpPlaceholderType::Title => "title"@,
        PpPlaceholderType::Body => "body"@,
        PpPlaceholderType::CenterTitle => "ctrTitle"@,
        PpPlaceholderType::Subtitle => "subTitle"@,
        PpPlaceholderType::Date => "dt"@,
        PpPlaceholderType::SlideNumber => "sldNum"@,
        PpPlaceholderType::Footer => "ftr"@,
        PpPlaceholderType::Header => "hdr"@,
        PpPlaceholderType::Object => "obj"@,
        PpPlaceholderType::Chart => "chart"@,
        PpPlaceholderType::Table => "tbl"@,
        PpPlaceholderType::ClipArt => "clipArt"@,
        PpPlaceholderType::OrgChart => "dgm"@,
        PpPlaceholderType::Media => "media"@,
        PpPlaceholderType::SlideImage => "sldImg"@,
        PpPlaceholderType::Picture => "pic"@,
    }
}

impl PpPlaceholderType {
    /// The XML token of this placeholder type.
    pub fn to_xml_str(&self) -> (r: &'static str)
        ensures
            r@ == ph_type_token(*self),
    {
        match self {
            PpPlaceholderType::Title => "title",
            PpPlaceholderType::Body => "body",
            PpPlaceholderType::CenterTitle => "ctrTitle",
            PpPlaceholderType::Subtitle => "subTitle",
            PpPlaceholderType::Date => "dt",
            PpPlaceholderType::SlideNumber => "sldNum",
            PpPlaceholderType::Footer => "ftr",
            PpPlaceholderType::Header => "hdr",
            PpPlaceholderType::Object => "obj",
            PpPlaceholderType::Chart => "chart",
            PpPlaceholderType::Table => "tbl",
            PpPlaceholderType::ClipArt => "clipArt",
            PpPlaceholderType::OrgChart => "dgm",
            PpPlaceholderType::Media => "media",
            PpPlaceholderType::SlideImage => "sldImg",
            PpPlaceholderType::Picture => "pic",
        }
    }
}

/// Placeholder orientation, the `orient` attribute of `<p:ph>`.
#[non_exhaustive]
#[derive(Debug, Clone, Copy, PartialEq, Eq, Structural)]
pub enum PlaceholderOrientation {
    Horizontal,
    Vertical,
}

/// The XML token of a placeholder orientation.
pub open spec fn ph_orient_token(o: PlaceholderOrientation) -> Seq<char> {
    match o {
        PlaceholderOrientation::Horizontal => "horz"@,
        PlaceholderOrientation::Vertical => "vert"@,
    }
}

impl PlaceholderOrientation {
    /// The XML token of this orientation.
    pub fn to_xml_str(&self) -> (r: &'static str)
        ensures
            r@ == ph_orient_token(*self),
    {
        match self {
            PlaceholderOrientation::Horizontal => "horz",
            PlaceholderOrientation::Vertical => "vert",
        }
    }
}

/// Placeholder size, the `sz` attribute of `<p:ph>`.
#[non_exhaustive]
#[derive(Debug, Clone, Copy, PartialEq, Eq, Structural)]
pub enum PlaceholderSize {
    Full,
    Half,
    Quarter,
}

/// The XML token of a placeholder size.
pub open spec fn ph_size_token(s: PlaceholderSize) -> Seq<char> {
    match s {
        PlaceholderSize::Full => "full"@,
        PlaceholderSize::Half => "half"@,
        PlaceholderSize::Quarter => "quarter"@,
    }
}

impl PlaceholderSize {
    /// The XML token of this size.
    pub fn to_xml_str(&self) -> (r: &'static str)
        ensures
            r@ == ph_size_token(*self),
    {
        match self {
            PlaceholderSize::Full => "full",
            PlaceholderSize::Half => "half",
            PlaceholderSize::Quarter => "quarter",
        }
    }
}

/// The value whose token is `s`, if any.
pub open spec fn ph_type_from_token(s: Seq<char>) -> Option<PpPlaceholderType> {
    if s == "title"@ {
        Some(PpPlaceholderType::Title)
    } else if s == "body"@ {
        Some(PpPlaceholderType::Body)
    } else if s == "ctrTitle"@ {
        Some(PpPlaceholderType::CenterTitle)
    } else if s == "subTitle"@ {
        Some(PpPlaceholderType::Subtitle)
    } else if s == "dt"@ {
        Some(PpPlaceholderType::Date)
    } else if s == "sldNum"@ {
        Some(PpPlaceholderType::SlideNumber)
    } else if s == "ftr"@ {
        Some(PpPlaceholderType::Footer)
    } else if s == "hdr"@ {
        Some(PpPlaceholderType::Header)
    } else if s == "obj"@ {
        Some(PpPlaceholderType::Object)
    } else if s == "chart"@ {
        Some(PpPlaceholderType::Chart)
    } else if s == "tbl"@ {
        Some(PpPlaceholderType::Table)
    } else if s == "clipArt"@ {
        Some(PpPlaceholderType::ClipArt)
    } else if s == "dgm"@ {
        Some(PpPlaceholderType::OrgChart)
    } else if s == "media"@ {
        Some(PpPlaceholderType::Media)
    } else if s == "sldImg"@ {
        Some(PpPlaceholderType::SlideImage)
    } else if s == "pic"@ {
        Some(PpPlaceholderType::Picture)
    } else {
        None
    }
}

impl PpPlaceholderType {
    /// The value written as `s`, if `s` is one of the tokens.
    pub fn from_xml_str(s: &str) -> (r: Option<PpPlaceholderType>)
        ensures
            r == ph_type_from_token(s@),
    {
        if str_eq(s, "title") {
            Some(PpPlaceholderType::Title)
        } else if str_eq(s, "body") {
            Some(PpPlaceholderType::Body)
        } else if str_eq(s, "ctrTitle") {
            Some(PpPlaceholderType::CenterTitle)
        } else if str_eq(s, "subTitle") {
            Some(PpPlaceholderType::Subtitle)
        } else if str_eq(s, "dt") {
            Some(PpPlaceholderType::Date)
        } else if str_eq(s, "sldNum") {
            Some(PpPlaceholderType::SlideNumber)
        } else if str_eq(s, "ftr") {
            Some(PpPlaceholderType::Footer)
        } else if str_eq(s, "hdr") {
            Some(PpPlaceholderType::Header)
        } else if str_eq(s, "obj") {
            Some(PpPlaceholderType::Object)
        } else if str_eq(s, "chart") {
            Some(PpPlaceholderType::Chart)
        } else if str_eq(s, "tbl") {
            Some(PpPlaceholderType::Table)
        } else if str_eq(s, "clipArt") {
            Some(PpPlaceholderType::ClipArt)
        } else if str_eq(s, "dgm") {
            Some(PpPlaceholderType::OrgChart)
        } else if str_eq(s, "media") {
            Some(PpPlaceholderType::Media)
        } else if str_eq(s, "sldImg") {
            Some(PpPlaceholderType::SlideImage)
        } else if str_eq(s, "pic") {
            Some(PpPlaceholderType::Picture)
        } else {
            None
        }
    }
}

/// Two texts differ when their lengths differ or they differ at position `j`.
pub proof fn lemma_text_ne(a: Seq<char>, b: Seq<char>, j: int)
    requires
        a.len() != b.len() || (0 <= j < a.len() && j < b.len() && a[j] != b[j]),
    ensures
        a != b,
{
}

/// Reading a placeholder type's token gives back that type, and a token read as a type is
/// that type's token: `from_xml_str` inverts `to_xml_str`, so the `<p:ph type=..>` that a
/// placeholder is written with reads back as the same type.
pub proof fn lemma_ph_type_token_round_trip(t: PpPlaceholderType, s: Seq<char>)
    ensures
        ph_type_from_token(ph_type_token(t)) == Some(t),
        ph_type_from_token(s) == Some(t) ==> s == ph_type_token(t),
{
    match t {
        PpPlaceholderType::Title => {
            reveal_strlit("title");
        },
        PpPlaceholderType::Body => {
            reveal_strlit("body");
            reveal_strlit("title");
            lemma_text_ne("body"@, "title"@, 0);
        },
        PpPlaceholderType::CenterTitle => {
            reveal_strlit("ctrTitle");
            reveal_strlit("title");
            lemma_text_ne("ctrTitle"@, "title"@, 0);
            reveal_strlit("body");
            lemma_text_ne("ctrTitle"@, "body"@, 0);
        },
        PpPlaceholderType::Subtitle => {
            reveal_strlit("subTitle");
            reveal_strlit("title");
            lemma_text_ne("subTitle"@, "title"@, 0);
            reveal_strlit("body");
            lemma_text_ne("subTitle"@, "body"@, 0);
            reveal_strlit("ctrTitle");
            lemma_text_ne("subTitle"@, "ctrTitle"@, 0);
        },
        PpPlaceholderType::Date => {
            reveal_strlit("dt");
            reveal_strlit("title");
            lemma_text_ne("dt"@, "title"@, 0);
            reveal_strlit("body");
            lemma_text_ne("dt"@, "body"@, 0);
            reveal_strlit("ctrTitle");
            lemma_text_ne("dt"@, "ctrTitle"@, 0);
            reveal_strlit("subTitle");
            lemma_text_ne("dt"@, "subTitle"@, 0);
        },
        PpPlaceholderType::SlideNumber => {
            reveal_strlit("sldNum");
            reveal_strlit("title");
            lemma_text_ne("sldNum"@, "title"@, 0);
            reveal_strlit("body");
            lemma_text_ne("sldNum"@, "body"@, 0);
            reveal_strlit("ctrTitle");
            lemma_text_ne("sldNum"@, "ctrTitle"@, 0);
            reveal_strlit("subTitle");
            lemma_text_ne("sldNum"@, "subTitle"@, 0);
            reveal_strlit("dt");
            lemma_text_ne("sldNum"@, "dt"@, 0);
        },
        PpPlaceholderType::Footer => {
            reveal_strlit("ftr");
            reveal_strlit("title");
            lemma_text_ne("ftr"@, "title"@, 0);
            reveal_strlit("body");
            lemma_text_ne("ftr"@, "body"@, 0);
            reveal_strlit("ctrTitle");
            lemma_text_ne("ftr"@, "ctrTitle"@, 0);
            reveal_strlit("subTitle");
            lemma_text_ne("ftr"@, "subTitle"@, 0);
            reveal_strlit("dt");
            lemma_text_ne("ftr"@, "dt"@, 0);
            reveal_strlit("sldNum");
            lemma_text_ne("ftr"@, "sldNum"@, 0);
        },
        PpPlaceholderType::Header => {
            reveal_strlit("hdr");
            reveal_strlit("title");
            lemma_text_ne("hdr"@, "title"@, 0);
            reveal_strlit("body");
            lemma_text_ne("hdr"@, "body"@, 0);
            reveal_strlit("ctrTitle");
            lemma_text_ne("hdr"@, "ctrTitle"@, 0);
            reveal_strlit("subTitle");
            lemma_text_ne("hdr"@, "subTitle"@, 0);
            reveal_strlit("dt");
            lemma_text_ne("hdr"@, "dt"@, 0);
            reveal_strlit("sldNum");
            lemma_text_ne("hdr"@, "sldNum"@, 0);
            reveal_strlit("ftr");
            lemma_text_ne("hdr"@, "ftr"@, 0);
        },
        PpPlaceholderType::Object => {
            reveal_strlit("obj");
            reveal_strlit("title");
            lemma_text_ne("obj"@, "title"@, 0);
            reveal_strlit("body");
            lemma_text_ne("obj"@, "body"@, 0);
            reveal_strlit("ctrTitle");
            lemma_text_ne("obj"@, "ctrTitle"@, 0);
            reveal_strlit("subTitle");
            lemma_text_ne("obj"@, "subTitle"@, 0);
            reveal_strlit("dt");
            lemma_text_ne("obj"@, "dt"@, 0);
            reveal_strlit("sldNum");
            lemma_text_ne("obj"@, "sldNum"@, 0);
            reveal_strlit("ftr");
            lemma_text_ne("obj"@, "ftr"@, 0);
            reveal_strlit("hdr");
            lemma_text_ne("obj"@, "hdr"@, 0);
        },
        PpPlaceholderType::Chart => {
            reveal_strlit("chart");
            reveal_strlit("title");
            lemma_text_ne("chart"@, "title"@, 0);
            reveal_strlit("body");
            lemma_text_ne("chart"@, "body"@, 0);
            reveal_strlit("ctrTitle");
            lemma_text_ne("chart"@, "ctrTitle"@, 0);
            reveal_strlit("subTitle");
            lemma_text_ne("chart"@, "subTitle"@, 0);
            reveal_strlit("dt");
            lemma_text_ne("chart"@, "dt"@, 0);
            reveal_strlit("sldNum");
            lemma_text_ne("chart"@, "sldNum"@, 0);
            reveal_strlit("ftr");
            lemma_text_ne("chart"@, "ftr"@, 0);
            reveal_strlit("hdr");
            lemma_text_ne("chart"@, "hdr"@, 0);
            reveal_strlit("obj");
            lemma_text_ne("chart"@, "obj"@, 0);
        },
        PpPlaceholderType::Table => {
            reveal_strlit("tbl");
            reveal_strlit("title");
            lemma_text_ne("tbl"@, "title"@, 0);
            reveal_strlit("body");
            lemma_text_ne("tbl"@, "body"@, 0);
            reveal_strlit("ctrTitle");
            lemma_text_ne("tbl"@, "ctrTitle"@, 0);
            reveal_strlit("subTitle");
            lemma_text_ne("tbl"@, "subTitle"@, 0);
            reveal_strlit("dt");
            lemma_text_ne("tbl"@, "dt"@, 0);
            reveal_strlit("sldNum");
            lemma_text_ne("tbl"@, "sldNum"@, 0);
            reveal_strlit("ftr");
            lemma_text_ne("tbl"@, "ftr"@, 0);
            reveal_strlit("hdr");
            lemma_text_ne("tbl"@, "hdr"@, 0);
            reveal_strlit("obj");
            lemma_text_ne("tbl"@, "obj"@, 0);
            reveal_strlit("chart");
            lemma_text_ne("tbl"@, "chart"@, 0);
        },
        PpPlaceholderType::ClipArt => {
            reveal_strlit("clipArt");
            reveal_strlit("title");
            lemma_text_ne("clipArt"@, "title"@, 0);
            reveal_strlit("body");
            lemma_text_ne("clipArt"@, "body"@, 0);
            reveal_strlit("ctrTitle");
            lemma_text_ne("clipArt"@, "ctrTitle"@, 0);
            reveal_strlit("subTitle");
            lemma_text_ne("clipArt"@, "subTitle"@, 0);
            reveal_strlit("dt");
            lemma_text_ne("clipArt"@, "dt"@, 0);
            reveal_strlit("sldNum");
            lemma_text_ne("clipArt"@, "sldNum"@, 0);
            reveal_strlit("ftr");
            lemma_text_ne("clipArt"@, "ftr"@, 0);
            reveal_strlit("hdr");
            lemma_text_ne("clipArt"@, "hdr"@, 0);
            reveal_strlit("obj");
            lemma_text_ne("clipArt"@, "obj"@, 0);
            reveal_strlit("chart");
            lemma_text_ne("clipArt"@, "chart"@, 0);
            reveal_strlit("tbl");
            lemma_text_ne("clipArt"@, "tbl"@, 0);
        },
        PpPlaceholderType::OrgChart => {
            reveal_strlit("dgm");
            reveal_strlit("title");
            lemma_text_ne("dgm"@, "title"@, 0);
            reveal_strlit("body");
            lemma_text_ne("dgm"@, "body"@, 0);
            reveal_strlit("ctrTitle");
            lemma_text_ne("dgm"@, "ctrTitle"@, 0);
            reveal_strlit("subTitle");
            lemma_text_ne("dgm"@, "subTitle"@, 0);
            reveal_strlit("dt");
            lemma_text_ne("dgm"@, "dt"@, 0);
            reveal_strlit("sldNum");
            lemma_text_ne("dgm"@, "sldNum"@, 0);
            reveal_strlit("ftr");
            lemma_text_ne("dgm"@, "ftr"@, 0);
            reveal_strlit("hdr");
            lemma_text_ne("dgm"@, "hdr"@, 0);
            reveal_strlit("obj");
            lemma_text_ne("dgm"@, "obj"@, 0);
            reveal_strlit("chart");
            lemma_text_ne("dgm"@, "chart"@, 0);
            reveal_strlit("tbl");
            lemma_text_ne("dgm"@, "tbl"@, 0);
            reveal_strlit("clipArt");
            lemma_text_ne("dgm"@, "clipArt"@, 0);
        },
        PpPlaceholderType::Media => {
            reveal_strlit("media");
            reveal_strlit("title");
            lemma_text_ne("media"@, "title"@, 0);
            reveal_strlit("body");
            lemma_text_ne("media"@, "body"@, 0);
            reveal_strlit("ctrTitle");
            lemma_text_ne("media"@, "ctrTitle"@, 0);
            reveal_strlit("subTitle");
            lemma_text_ne("media"@, "subTitle"@, 0);
            reveal_strlit("dt");
            lemma_text_ne("media"@, "dt"@, 0);
            reveal_strlit("sldNum");
            lemma_text_ne("media"@, "sldNum"@, 0);
            reveal_strlit("ftr");
            lemma_text_ne("media"@, "ftr"@, 0);
            reveal_strlit("hdr");
            lemma_text_ne("media"@, "hdr"@, 0);
            reveal_strlit("obj");
            lemma_text_ne("media"@, "obj"@, 0);
            reveal_strlit("chart");
            lemma_text_ne("media"@, "chart"@, 0);
            reveal_strlit("tbl");
            lemma_text_ne("media"@, "tbl"@, 0);
            reveal_strlit("clipArt");
            lemma_text_ne("media"@, "clipArt"@, 0);
            reveal_strlit("dgm");
            lemma_text_ne("media"@, "dgm"@, 0);
        },
        PpPlaceholderType::SlideImage => {
            reveal_strlit("sldImg");
            reveal_strlit("title");
            lemma_text_ne("sldImg"@, "title"@, 0);
            reveal_strlit("body");
            lemma_text_ne("sldImg"@, "body"@, 0);
            reveal_strlit("ctrTitle");
            lemma_text_ne("sldImg"@, "ctrTitle"@, 0);
            reveal_strlit("subTitle");
            lemma_text_ne("sldImg"@, "subTitle"@, 0);
            reveal_strlit("dt");
            lemma_text_ne("sldImg"@, "dt"@, 0);
            reveal_strlit("sldNum");
            lemma_text_ne("sldImg"@, "sldNum"@, 3);
            reveal_strlit("ftr");
            lemma_text_ne("sldImg"@, "ftr"@, 0);
            reveal_strlit("hdr");
            lemma_text_ne("sldImg"@, "hdr"@, 0);
            reveal_strlit("obj");
            lemma_text_ne("sldImg"@, "obj"@, 0);
            reveal_strlit("chart");
            lemma_text_ne("sldImg"@, "chart"@, 0);
            reveal_strlit("tbl");
            lemma_text_ne("sldImg"@, "tbl"@, 0);
            reveal_strlit("clipArt");
            lemma_text_ne("sldImg"@, "clipArt"@, 0);
            reveal_strlit("dgm");
            lemma_text_ne("sldImg"@, "dgm"@, 0);
            reveal_strlit("media");
            lemma_text_ne("sldImg"@, "media"@, 0);
        },
        PpPlaceholderType::Picture => {
            reveal_strlit("pic");
            reveal_strlit("title");
            lemma_text_ne("pic"@, "title"@, 0);
            reveal_strlit("body");
            lemma_text_ne("pic"@, "body"@, 0);
            reveal_strlit("ctrTitle");
            lemma_text_ne("pic"@, "ctrTitle"@, 0);
            reveal_strlit("subTitle");
            lemma_text_ne("pic"@, "subTitle"@, 0);
            reveal_strlit("dt");
            lemma_text_ne("pic"@, "dt"@, 0);
            reveal_strlit("sldNum");
            lemma_text_ne("pic"@, "sldNum"@, 0);
            reveal_strlit("ftr");
            lemma_text_ne("pic"@, "ftr"@, 0);
            reveal_strlit("hdr");
            lemma_text_ne("pic"@, "hdr"@, 0);
            reveal_strlit("obj");
            lemma_text_ne("pic"@, "obj"@, 0);
            reveal_strlit("chart");
            lemma_text_ne("pic"@, "chart"@, 0);
            reveal_strlit("tbl");
            lemma_text_ne("pic"@, "tbl"@, 0);
            reveal_strlit("clipArt");
            lemma_text_ne("pic"@, "clipArt"@, 0);
            reveal_strlit("dgm");
            lemma_text_ne("pic"@, "dgm"@, 0);
            reveal_strlit("media");
            lemma_text_ne("pic"@, "media"@, 0);
            reveal_strlit("sldImg");
            lemma_text_ne("pic"@, "sldImg"@, 0);
        },
    }
}

/// The value whose token is `s`, if any.
pub open spec fn ph_orient_from_token(s: Seq<char>) -> Option<PlaceholderOrientation> {
    if s == "horz"@ {
        Some(PlaceholderOrientation::Horizontal)
    } else if s == "vert"@ {
        Some(PlaceholderOrientation::Vertical)
    } else {
        None
    }
}

impl PlaceholderOrientation {
    /// The value written as `s`, if `s` is one of the tokens.
    pub fn from_xml_str(s: &str) -> (r: Option<PlaceholderOrientation>)
        ensures
            r == ph_orient_from_token(s@),
    {
        if str_eq(s, "horz") {
            Some(PlaceholderOrientation::Horizontal)
        } else if str_eq(s, "vert") {
            Some(PlaceholderOrientation::Vertical)
        } else {
            None
        }
    }
}

/// The value whose token is `s`, if any.
pub open spec fn ph_size_from_token(s: Seq<char>) -> Option<PlaceholderSize> {
    if s == "full"@ {
        Some(PlaceholderSize::Full)
    } else if s == "half"@ {
        Some(PlaceholderSize::Half)
    } else if s == "quarter"@ {
        Some(PlaceholderSize::Quarter)
    } else {
        None
    }
}

impl PlaceholderSize {
    /// The value written as `s`, if `s` is one of the tokens.
    pub fn from_xml_str(s: &str) -> (r: Option<PlaceholderSize>)
        ensures
            r == ph_size_from_token(s@),
    {
        if str_eq(s, "full") {
            Some(PlaceholderSize::Full)
        } else if str_eq(s, "half") {
            Some(PlaceholderSize::Half)
        } else if str_eq(s, "quarter") {
            Some(PlaceholderSize::Quarter)
        } else {
            None
        }
    }
}

/// Reading an orientation's or a size's token gives back that value.
pub proof fn lemma_ph_orient_size_round_trip(o: PlaceholderOrientation, z: PlaceholderSize)
    ensures
        ph_orient_from_token(ph_orient_token(o)) == Some(o),
        ph_size_from_token(ph_size_token(z)) == Some(z),
{
    match o {
        PlaceholderOrientation::Horizontal => {
            reveal_strlit("horz");
        },
        PlaceholderOrientation::Vertical => {
            reveal_strlit("vert");
            reveal_strlit("horz");
            lemma_text_ne("vert"@, "horz"@, 0);
        },
    }
    match z {
        PlaceholderSize::Full => {
            reveal_strlit("full");
        },
        PlaceholderSize::Half => {
            reveal_strlit("half");
            reveal_strlit("full");
            lemma_text_ne("half"@, "full"@, 0);
        },
        PlaceholderSize::Quarter => {
            reveal_strlit("quarter");
            reveal_strlit("full");
            lemma_text_ne("quarter"@, "full"@, 0);
            reveal_strlit("half");
            lemma_text_ne("quarter"@, "half"@, 0);
        },
    }
}

/// How a presentation is printed with respect to color (`clrMode` of `<p:prnPr>`).
#[non_exhaustive]
#[derive(Debug, Clone, Copy, PartialEq, Eq, Structural)]
pub enum PrintColorMode {
    Color,
    Grayscale,
    PureBlackWhite,
}

/// The XML token of a print color mode.
pub open spec fn color_mode_token(m: PrintColorMode) -> Seq<char> {
    match m {
        PrintColorMode::Color => "clr"@,
        PrintColorMode::Grayscale => "gray"@,
        PrintColorMode::PureBlackWhite => "pureBlkWht"@,
    }
}

/// The color mode whose token is `s`, if any.
pub open spec fn color_mode_from_token(s: Seq<char>) -> Option<PrintColorMode> {
    if s == "clr"@ {
        Some(PrintColorMode::Color)
    } else if s == "gray"@ {
        Some(PrintColorMode::Grayscale)
    } else if s == "pureBlkWht"@ {
        Some(PrintColorMode::PureBlackWhite)
    } else {
        None
    }
}

impl PrintColorMode {
    /// The XML token of this color mode.
    pub fn to_xml_str(&self) -> (r: &'static str)
        ensures
            r@ == color_mode_token(*self),
    {
        match self {
            PrintColorMode::Color => "clr",
            PrintColorMode::Grayscale => "gray",
            PrintColorMode::PureBlackWhite => "pureBlkWht",
        }
    }

    /// The color mode written as `s`, if `s` is one of the tokens.
    pub fn from_xml_str(s: &str) -> (r: Option<PrintColorMode>)
        ensures
            r == color_mode_from_token(s@),
    {
        if str_eq(s, "clr") {
            Some(PrintColorMode::Color)
        } else if str_eq(s, "gray") {
            Some(PrintColorMode::Grayscale)
        } else if str_eq(s, "pureBlkWht") {
            Some(PrintColorMode::PureBlackWhite)
        } else {
            None
        }
    }
}

/// What content is printed (`prnWhat` of `<p:prnPr>`).
#[non_exhaustive]
#[derive(Debug, Clone, Copy, PartialEq, Eq, Structural)]
pub enum PrintWhat {
    Slides,
    Handouts,
    Notes,
    Outline,
}

/// The XML token of a print-what value.
pub open spec fn print_what_token(w: PrintWhat) -> Seq<char> {
    match w {
        PrintWhat::Slides => "slides"@,
        PrintWhat::Handouts => "handouts"@,
        PrintWhat::Notes => "notes"@,
        PrintWhat::Outline => "outline"@,
    }
}

/// The print-what value whose token is `s`, if any.
pub open spec fn print_what_from_token(s: Seq<char>) -> Option<PrintWhat> {
    if s == "slides"@ {
        Some(PrintWhat::Slides)
    } else if s == "handouts"@ {
        Some(PrintWhat::Handouts)
    } else if s == "notes"@ {
        Some(PrintWhat::Notes)
    } else if s == "outline"@ {
        Some(PrintWhat::Outline)
    } else {
        None
    }
}

impl PrintWhat {
    /// The XML token of this value.
    pub fn to_xml_str(&self) -> (r: &'static str)
        ensures
            r@ == print_what_token(*self),
    {
        match self {
            PrintWhat::Slides => "slides",
            PrintWhat::Handouts => "handouts",
            PrintWhat::Notes => "notes",
            PrintWhat::Outline => "outline",
        }
    }

    /// The value written as `s`, if `s` is one of the tokens.
    pub fn from_xml_str(s: &str) -> (r: Option<PrintWhat>)
        ensures
            r == print_what_from_token(s@),
    {
        if str_eq(s, "slides") {
            Some(PrintWhat::Slides)
        } else if str_eq(s, "handouts") {
            Some(PrintWhat::Handouts)
        } else if str_eq(s, "notes") {
            Some(PrintWhat::Notes)
        } else if str_eq(s, "outline") {
            Some(PrintWhat::Outline)
        } else {
            None
        }
    }
}

/// Number of slides per handout page (`prnWhat="handoutsN"`).
#[non_exhaustive]
#[derive(Debug, Clone, Copy, PartialEq, Eq, Structural)]
pub enum HandoutLayout {
    One,
    Two,
    Three,
    Four,
    Six,
    Nine,
}

/// The XML token of a handout layout.
pub open spec fn handout_token(h: HandoutLayout) -> Seq<char> {
    match h {
        HandoutLayout::One => "handouts1"@,
        HandoutLayout::Two => "handouts2"@,
        HandoutLayout::Three => "handouts3"@,
        HandoutLayout::Four => "handouts4"@,
        HandoutLayout::Six => "handouts6"@,
        HandoutLayout::Nine => "handouts9"@,
    }
}

/// The handout layout whose token is `s`, if any.
pub open spec fn handout_from_token(s: Seq<char>) -> Option<HandoutLayout> {
    if s == "handouts1"@ {
        Some(HandoutLayout::One)
    } else if s == "handouts2"@ {
        Some(HandoutLayout::Two)
    } else if s == "handouts3"@ {
        Some(HandoutLayout::Three)
    } else if s == "handouts4"@ {
        Some(HandoutLayout::Four)
    } else if s == "handouts6"@ {
        Some(HandoutLayout::Six)
    } else if s == "handouts9"@ {
        Some(HandoutLayout::Nine)
    } else {
        None
    }
}

impl HandoutLayout {
    /// The XML token of this layout.
    pub fn to_xml_str(&self) -> (r: &'static str)
        ensures
            r@ == handout_token(*self),
    {
        match self {
            HandoutLayout::One => "handouts1",
            HandoutLayout::Two => "handouts2",
            HandoutLayout::Three => "handouts3",
            HandoutLayout::Four => "handouts4",
            HandoutLayout::Six => "handouts6",
            HandoutLayout::Nine => "handouts9",
        }
    }

    /// The layout written as `s`, if `s` is one of the tokens.
    pub fn from_xml_str(s: &str) -> (r: Option<HandoutLayout>)
        ensures
            r == handout_from_token(s@),
    {
        if str_eq(s, "handouts1") {
            Some(HandoutLayout::One)
        } else if str_eq(s, "handouts2") {
            Some(HandoutLayout::Two)
        } else if str_eq(s, "handouts3") {
            Some(HandoutLayout::Three)
        } else if str_eq(s, "handouts4") {
            Some(HandoutLayout::Four)
        } else if str_eq(s, "handouts6") {
            Some(HandoutLayout::Six)
        } else if str_eq(s, "handouts9") {
            Some(HandoutLayout::Nine)
        } else {
            None
        }
    }
}

/// Page orientation for printing (`orient` of `<p:prnPr>`).
#[non_exhaustive]
#[derive(Debug, Clone, Copy, PartialEq, Eq, Structural)]
pub enum PrintOrientation {
    Portrait,
    Landscape,
}

/// The XML token of a print orientation.
pub open spec fn orientation_token(o: PrintOrientation) -> Seq<char> {
    match o {
        PrintOrientation::Portrait => "portrait"@,
        PrintOrientation::Landscape => "landscape"@,
    }
}

/// The orientation whose token is `s`, if any.
pub open spec fn orientation_from_token(s: Seq<char>) -> Option<PrintOrientation> {
    if s == "portrait"@ {
        Some(PrintOrientation::Portrait)
    } else if s == "landscape"@ {
        Some(PrintOrientation::Landscape)
    } else {
        None
    }
}

impl PrintOrientation {
    /// The XML token of this orientation.
    pub fn to_xml_str(&self) -> (r: &'static str)
        ensures
            r@ == orientation_token(*self),
    {
        match self {
            PrintOrientation::Portrait => "portrait",
            PrintOrientation::Landscape => "landscape",
        }
    }

    /// The orientation written as `s`, if `s` is one of the tokens.
    pub fn from_xml_str(s: &str) -> (r: Option<PrintOrientation>)
        ensures
            r == orientation_from_token(s@),
    {
        if str_eq(s, "portrait") {
            Some(PrintOrientation::Portrait)
        } else if str_eq(s, "landscape") {
            Some(PrintOrientation::Landscape)
        } else {
            None
        }
    }
}

/// Reading a print setting's token gives back that setting: each `from_xml_str` inverts
/// the matching `to_xml_str`, so what `PrintSettings` writes reads back the same.
pub proof fn lemma_print_tokens_round_trip(m: PrintColorMode, w: PrintWhat, h: HandoutLayout, o: PrintOrientation)
    ensures
        color_mode_from_token(color_mode_token(m)) == Some(m),
        print_what_from_token(print_what_token(w)) == Some(w),
        handout_from_token(handout_token(h)) == Some(h),
        orientation_from_token(orientation_token(o)) == Some(o),
{
    match m {
        PrintColorMode::Color => {
            reveal_strlit("clr");
        },
        PrintColorMode::Grayscale => {
            reveal_strlit("gray");
            reveal_strlit("clr");
            lemma_text_ne("gray"@, "clr"@, 0);
        },
        PrintColorMode::PureBlackWhite => {
            reveal_strlit("pureBlkWht");
            reveal_strlit("clr");
            lemma_text_ne("pureBlkWht"@, "clr"@, 0);
            reveal_strlit("gray");
            lemma_text_ne("pureBlkWht"@, "gray"@, 0);
        },
    }
    match w {
        PrintWhat::Slides => {
            reveal_strlit("slides");
        },
        PrintWhat::Handouts => {
            reveal_strlit("handouts");
            reveal_strlit("slides");
            lemma_text_ne("handouts"@, "slides"@, 0);
        },
        PrintWhat::Notes => {
            reveal_strlit("notes");
            reveal_strlit("slides");
            lemma_text_ne("notes"@, "slides"@, 0);
            reveal_strlit("handouts");
            lemma_text_ne("notes"@, "handouts"@, 0);
        },
        PrintWhat::Outline => {
            reveal_strlit("outline");
            reveal_strlit("slides");
            lemma_text_ne("outline"@, "slides"@, 0);
            reveal_strlit("handouts");
            lemma_text_ne("outline"@, "handouts"@, 0);
            reveal_strlit("notes");
            lemma_text_ne("outline"@, "notes"@, 0);
        },
    }
    match h {
        HandoutLayout::One => {
            reveal_strlit("handouts1");
        },
        HandoutLayout::Two => {
            reveal_strlit("handouts2");
            reveal_strlit("handouts1");
            lemma_text_ne("handouts2"@, "handouts1"@, 8);
        },
        HandoutLayout::Three => {
            reveal_strlit("handouts3");
            reveal_strlit("handouts1");
            lemma_text_ne("handouts3"@, "handouts1"@, 8);
            reveal_strlit("handouts2");
            lemma_text_ne("handouts3"@, "handouts2"@, 8);
        },
        HandoutLayout::Four => {
            reveal_strlit("handouts4");
            reveal_strlit("handouts1");
            lemma_text_ne("handouts4"@, "handouts1"@, 8);
            reveal_strlit("handouts2");
            lemma_text_ne("handouts4"@, "handouts2"@, 8);
            reveal_strlit("handouts3");
            lemma_text_ne("handouts4"@, "handouts3"@, 8);
        },
        HandoutLayout::Six => {
            reveal_strlit("handouts6");
            reveal_strlit("handouts1");
            lemma_text_ne("handouts6"@, "handouts1"@, 8);
            reveal_strlit("handouts2");
            lemma_text_ne("handouts6"@, "handouts2"@, 8);
            reveal_strlit("handouts3");
            lemma_text_ne("handouts6"@, "handouts3"@, 8);
            reveal_strlit("handouts4");
            lemma_text_ne("handouts6"@, "handouts4"@, 8);
        },
        HandoutLayout::Nine => {
            reveal_strlit("handouts9");
            reveal_strlit("handouts1");
            lemma_text_ne("handouts9"@, "handouts1"@, 8);
            reveal_strlit("handouts2");
            lemma_text_ne("handouts9"@, "handouts2"@, 8);
            reveal_strlit("handouts3");
            lemma_text_ne("handouts9"@, "handouts3"@, 8);
            reveal_strlit("handouts4");
            lemma_text_ne("handouts9"@, "handouts4"@, 8);
            reveal_strlit("handouts6");
            lemma_text_ne("handouts9"@, "handouts6"@, 8);
        },
    }
    match o {
        PrintOrientation::Portrait => {
            reveal_strlit("portrait");
        },
        PrintOrientation::Landscape => {
            reveal_strlit("landscape");
            reveal_strlit("portrait");
            lemma_text_ne("landscape"@, "portrait"@, 0);
        },
    }
}

} // verus!
