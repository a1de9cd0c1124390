//! Action settings and hyperlink types for shapes (`<a:hlinkClick>` / `<a:hlinkHover>`).
use vstd::prelude::*;
use crate::enums::PpActionType;
use crate::text::{string_push_str, push_escaped, xml_escape_spec};
use crate::units::RelationshipId;

verus! {

/// A hyperlink reference with address and optional tooltip.
#[derive(Debug, Clone, PartialEq, Eq)]
pub struct Hyperlink {
    /// The URL or address for the hyperlink.
    pub address: Option<String>,
    /// Tooltip text shown on hover.
    pub tooltip: Option<String>,
    /// The relationship ID for the hyperlink target.
    pub r_id: Option<RelationshipId>,
}

impl Hyperlink {
    /// Create a new hyperlink with the given URL.
    pub fn new(url: &str) -> (r: Self)
        ensures
            r.address matches Some(a) && a@ == url@,
            r.tooltip is None,
            r.r_id is None,
    {
        Hyperlink { address: Some(url.to_owned()), tooltip: None, r_id: None }
    }

    /// Create a new hyperlink with URL and tooltip.
    pub fn with_tooltip(url: &str, tooltip: &str) -> (r: Self)
        ensures
            r.address matches Some(a) && a@ == url@,
            r.tooltip matches Some(t) && t@ == tooltip@,
            r.r_id is None,
    {
        Hyperlink { address: Some(url.to_owned()), tooltip: Some(tooltip.to_owned()), r_id: None }
    }
}

/// Action settings for a shape click or hover event.
#[derive(Debug, Clone, PartialEq, Eq)]
pub struct ActionSetting {
    /// The type of action to perform.
    pub action: PpActionType,
    /// Hyperlink details (URL, tooltip).
    pub hyperlink: Option<Hyperlink>,
    /// Target slide part name for slide navigation actions.
    pub target_slide: Option<String>,
    /// Relationship ID for named slide jump (used with `PpActionType::NamedSlide`).
    pub target_slide_r_id: Option<RelationshipId>,
}

/// ` r:id="…"` with the id escaped.
pub open spec fn rid_attr(rid: Seq<char>) -> Seq<char> {
    " r:id=\""@ + xml_escape_spec(rid) + "\""@
}

/// The `action` attribute for the slide-show jumps; empty for other actions.
pub open spec fn jump_attr(a: PpActionType) -> Seq<char> {
    match a {
        PpActionType::NextSlide => " action=\"ppaction://hlinkshowjump?jump=nextslide\""@,
        PpActionType::PreviousSlide => " action=\"ppaction://hlinkshowjump?jump=previousslide\""@,
        PpActionType::FirstSlide => " action=\"ppaction://hlinkshowjump?jump=firstslide\""@,
        PpActionType::LastSlide => " action=\"ppaction://hlinkshowjump?jump=lastslide\""@,
        PpActionType::EndShow => " action=\"ppaction://hlinkshowjump?jump=endshow\""@,
        _ => Seq::empty(),
    }
}

/// For a named-slide jump: the action's own id wins over the given one.
pub open spec fn named_rid_part(a: ActionSetting, r_id: Option<Seq<char>>) -> Seq<char> {
    match a.target_slide_r_id {
        Some(rid) => rid_attr(rid@),
        None => match r_id {
            Some(rid) => rid_attr(rid),
            None => Seq::empty(),
        },
    }
}

/// The relationship-id attribute: for a hyperlink the given id wins over the
/// hyperlink's own; for a named-slide jump the action's own id wins over the given one.
pub open spec fn action_rid_part(a: ActionSetting, r_id: Option<Seq<char>>) -> Seq<char> {
    match a.action {
        PpActionType::Hyperlink => match r_id {
            Some(rid) => rid_attr(rid),
            None => match a.hyperlink {
                Some(h) => match h.r_id {
                    Some(rid) => rid_attr(rid@),
                    None => Seq::empty(),
                },
                None => Seq::empty(),
            },
        },
        PpActionType::NamedSlide => named_rid_part(a, r_id) + " action=\"ppaction://hlinksldjump\""@,
        _ => jump_attr(a.action),
    }
}

/// The tooltip attribute, present when the hyperlink has a tooltip.
pub open spec fn tooltip_part(a: ActionSetting) -> Seq<char> {
    match a.hyperlink {
        Some(h) => match h.tooltip {
            Some(t) => " tooltip=\""@ + xml_escape_spec(t@) + "\""@,
            None => Seq::empty(),
        },
        None => Seq::empty(),
    }
}

/// The empty element `<name …/>` written for an action.
pub open spec fn action_xml(a: ActionSetting, element: Seq<char>, r_id: Option<Seq<char>>) -> Seq<char> {
    "<"@ + element + action_rid_part(a, r_id) + tooltip_part(a) + "/>"@
}

/// The view of an optional string slice.
pub open spec fn opt_str_view(r: Option<&str>) -> Option<Seq<char>> {
    match r {
        Some(s) => Some(s@),
        None => None,
    }
}

fn write_rid(out: &mut String, rid: &str)
    ensures
        final(out)@ == old(out)@ + rid_attr(rid@),
{
    string_push_str(out, " r:id=\"");
    push_escaped(out, rid);
    string_push_str(out, "\"");
    assert(out@ =~= old(out)@ + rid_attr(rid@));
}

fn write_jump(out: &mut String, a: PpActionType)
    ensures
        final(out)@ == old(out)@ + jump_attr(a),
{
    match a {
        PpActionType::NextSlide => string_push_str(out, " action=\"ppaction://hlinkshowjump?jump=nextslide\""),
        PpActionType::PreviousSlide => string_push_str(out, " action=\"ppaction://hlinkshowjump?jump=previousslide\""),
        PpActionType::FirstSlide => string_push_str(out, " action=\"ppaction://hlinkshowjump?jump=firstslide\""),
        PpActionType::LastSlide => string_push_str(out, " action=\"ppaction://hlinkshowjump?jump=lastslide\""),
        PpActionType::EndShow => string_push_str(out, " action=\"ppaction://hlinkshowjump?jump=endshow\""),
        _ => {
            assert(old(out)@ + jump_attr(a) =~= old(out)@);
        },
    }
}

impl ActionSetting {
    /// Create an action setting for a hyperlink URL.
    pub fn hyperlink(url: &str) -> (r: Self)
        ensures
            r.action == PpActionType::Hyperlink,
            r.hyperlink matches Some(h) && (h.address matches Some(a) && a@ == url@) && h.tooltip is None
                && h.r_id is None,
            r.target_slide is None,
            r.target_slide_r_id is None,
    {
        ActionSetting {
            action: PpActionType::Hyperlink,
            hyperlink: Some(Hyperlink::new(url)),
            target_slide: None,
            target_slide_r_id: None,
        }
    }

    /// Create an action setting for a hyperlink with tooltip.
    pub fn hyperlink_with_tooltip(url: &str, tooltip: &str) -> (r: Self)
        ensures
            r.action == PpActionType::Hyperlink,
            r.hyperlink matches Some(h) && (h.address matches Some(a) && a@ == url@)
                && (h.tooltip matches Some(t) && t@ == tooltip@) && h.r_id is None,
            r.target_slide is None,
            r.target_slide_r_id is None,
    {
        ActionSetting {
            action: PpActionType::Hyperlink,
            hyperlink: Some(Hyperlink::with_tooltip(url, tooltip)),
            target_slide: None,
            target_slide_r_id: None,
        }
    }

    /// Create a next-slide action.
    pub fn next_slide() -> (r: Self)
        ensures
            r.action == PpActionType::NextSlide,
            r.hyperlink is None,
            r.target_slide is None,
            r.target_slide_r_id is None,
    {
        ActionSetting {
            action: PpActionType::NextSlide,
            hyperlink: None,
            target_slide: None,
            target_slide_r_id: None,
        }
    }

    /// Create a previous-slide action.
    pub fn previous_slide() -> (r: Self)
        ensures
            r.action == PpActionType::PreviousSlide,
            r.hyperlink is None,
            r.target_slide is None,
            r.target_slide_r_id is None,
    {
        ActionSetting {
            action: PpActionType::PreviousSlide,
            hyperlink: None,
            target_slide: None,
            target_slide_r_id: None,
        }
    }

    /// Create a named-slide action that jumps to a specific slide by relationship ID.
    pub fn named_slide(r_id: &RelationshipId) -> (r: Self)
        ensures
            r.action == PpActionType::NamedSlide,
            r.hyperlink is None,
            r.target_slide is None,
            r.target_slide_r_id matches Some(id) && id@ == r_id@,
    {
        ActionSetting {
            action: PpActionType::NamedSlide,
            hyperlink: None,
            target_slide: None,
            target_slide_r_id: Some(r_id.copied()),
        }
    }

    fn write_rid_part(&self, out: &mut String, r_id: Option<&str>)
        ensures
            final(out)@ == old(out)@ + action_rid_part(*self, opt_str_view(r_id)),
    {
        match self.action {
            PpActionType::Hyperlink => {
                match r_id {
                    Some(rid) => write_rid(out, rid),
                    None => {
                        match &self.hyperlink {
                            Some(h) => match &h.r_id {
                                Some(rid) => write_rid(out, rid.as_str()),
                                None => {
                                    assert(old(out)@ + Seq::<char>::empty() =~= old(out)@);
                                },
                            },
                            None => {
                                assert(old(out)@ + Seq::<char>::empty() =~= old(out)@);
                            },
                        }
                    },
                }
            },
            PpActionType::NamedSlide => {
                match &self.target_slide_r_id {
                    Some(rid) => write_rid(out, rid.as_str()),
                    None => match r_id {
                        Some(rid) => write_rid(out, rid),
                        None => {},
                    },
                }
                string_push_str(out, " action=\"ppaction://hlinksldjump\"");
                assert(out@ =~= old(out)@ + action_rid_part(*self, opt_str_view(r_id)));
            },
            _ => write_jump(out, self.action),
        }
    }

    fn write_tooltip(&self, out: &mut String)
        ensures
            final(out)@ == old(out)@ + tooltip_part(*self),
    {
        match &self.hyperlink {
            Some(h) => match &h.tooltip {
                Some(t) => {
                    string_push_str(out, " tooltip=\"");
                    push_escaped(out, t.as_str());
                    string_push_str(out, "\"");
                    assert(out@ =~= old(out)@ + tooltip_part(*self));
                },
                None => {
                    assert(old(out)@ + Seq::<char>::empty() =~= old(out)@);
                },
            },
            None => {
                assert(old(out)@ + Seq::<char>::empty() =~= old(out)@);
            },
        }
    }

    /// Appends the element `<element_name …/>` for this action.
    fn write_xml_element(&self, out: &mut String, element_name: &str, r_id: Option<&str>)
        ensures
            final(out)@ == old(out)@ + action_xml(*self, element_name@, opt_str_view(r_id)),
    {
        string_push_str(out, "<");
        string_push_str(out, element_name);
        self.write_rid_part(out, r_id);
        self.write_tooltip(out);
        string_push_str(out, "/>");
        assert(out@ =~= old(out)@ + action_xml(*self, element_name@, opt_str_view(r_id)));
    }

    /// Appends the `<a:hlinkClick>` element; `r_id` is the relationship id of an external hyperlink.
    pub fn write_xml(&self, out: &mut String, r_id: Option<&str>)
        ensures
            final(out)@ == old(out)@ + action_xml(*self, "a:hlinkClick"@, opt_str_view(r_id)),
    {
        self.write_xml_element(out, "a:hlinkClick", r_id)
    }

    /// Appends the `<a:hlinkHover>` element; otherwise the same as `write_xml`.
    pub fn write_hover_xml(&self, out: &mut String, r_id: Option<&str>)
        ensures
            final(out)@ == old(out)@ + action_xml(*self, "a:hlinkHover"@, opt_str_view(r_id)),
    {
        self.write_xml_element(out, "a:hlinkHover", r_id)
    }

    /// The `<a:hlinkClick>` element as a string.
    pub fn to_xml_string(&self, r_id: Option<&str>) -> (r: String)
        ensures
            r@ == action_xml(*self, "a:hlinkClick"@, opt_str_view(r_id)),
    {
        let mut s = String::new();
        self.write_xml(&mut s, r_id);
        assert(s@ =~= action_xml(*self, "a:hlinkClick"@, opt_str_view(r_id)));
        s
    }

    /// The `<a:hlinkHover>` element as a string.
    pub fn to_hover_xml_string(&self, r_id: Option<&str>) -> (r: String)
        ensures
            r@ == action_xml(*self, "a:hlinkHover"@, opt_str_view(r_id)),
    {
        let mut s = String::new();
        self.write_hover_xml(&mut s, r_id);
        assert(s@ =~= action_xml(*self, "a:hlinkHover"@, opt_str_view(r_id)));
        s
    }
}

} // verus!
