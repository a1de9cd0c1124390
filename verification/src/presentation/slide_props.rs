//! Slide properties kept in the slide's own XML: its transition, its animation timing and
//! its background.
use vstd::prelude::*;
use vstd::utf8::encode_utf8;
use crate::edit::{inserted, removed_element, rfind};
use crate::error::PptxError;
use crate::opc::package::{PackageView, find_part};
use crate::slide::blob_text;
use super::{Presentation, with_blob};
use super::slides::SlideRef;

verus! {

/// `</p:sld>`
pub open spec fn slide_end() -> Seq<char> {
    "</p:sld>"@
}

/// Slide XML with its first `name` element removed and `xml` put before the last
/// `</p:sld>`; `None` without that end tag.
pub open spec fn element_replaced(t: Seq<char>, name: Seq<char>, xml: Seq<char>) -> Option<Seq<char>> {
    let t1 = removed_element(t, name);
    match rfind(t1, slide_end()) {
        Some(q) => Some(inserted(t1, q, xml)),
        None => None,
    }
}

/// The package with the XML of slide part `name` rewritten by `edit`; `None` (an error,
/// nothing changed) without the part, when its XML is not UTF-8, or when `edit` fails.
pub open spec fn slide_edited(pkg: PackageView, name: Seq<char>, edit: spec_fn(Seq<char>) -> Option<Seq<char>>) -> Option<PackageView> {
    match find_part(pkg.parts, name, 0) {
        Some(i) => match blob_text(pkg.parts[i].blob) {
            Some(t) => match edit(t) {
                Some(u) => Some(with_blob(pkg, i, encode_utf8(u))),
                None => None,
            },
            None => None,
        },
        None => None,
    }
}

/// What `set_slide_transition` gives: the slide's `<p:transition>` replaced by `xml`, put
/// before `</p:sld>`.
pub open spec fn transition_set(pkg: PackageView, name: Seq<char>, xml: Seq<char>) -> Option<PackageView> {
    slide_edited(pkg, name, |t: Seq<char>| element_replaced(t, "p:transition"@, xml))
}

/// What `set_slide_animations` gives: the slide's `<p:timing>` removed and, unless `xml`
/// is empty, `xml` put before `</p:sld>`.
pub open spec fn animations_set(pkg: PackageView, name: Seq<char>, xml: Seq<char>) -> Option<PackageView> {
    slide_edited(
        pkg,
        name,
        |t: Seq<char>| if xml.len() == 0 { Some(removed_element(t, "p:timing"@)) } else { element_replaced(t, "p:timing"@, xml) },
    )
}

/// What `clear_slide_background` gives: the slide's `<p:bg>` element removed, so that the
/// slide shows its master's background.
pub open spec fn background_cleared(pkg: PackageView, name: Seq<char>) -> Option<PackageView> {
    slide_edited(pkg, name, |t: Seq<char>| Some(removed_element(t, "p:bg"@)))
}

/// What `set_slide_background_image` gives: the slide's `<p:bg>` replaced by a picture
/// background of the image that relationship `rid` points to, right after `<p:cSld>`.
pub open spec fn background_image_set(pkg: PackageView, name: Seq<char>, rid: Seq<char>) -> Option<PackageView> {
    slide_edited(pkg, name, |t: Seq<char>| crate::slide::with_bg(t, crate::slide::image_bg_text(rid)))
}

impl Presentation {
    /// The bytes of the slide's part, for changes; an error when there is no such part.
    pub fn slide_xml_mut(&mut self, slide_ref: &SlideRef) -> (r: Result<&mut Vec<u8>, PptxError>)
        ensures
            match find_part(old(self)@.parts, slide_ref@.1, 0) {
                Some(i) => r matches Ok(b) && b@ == old(self)@.parts[i].blob && final(self)@ == with_blob(old(self)@, i, final(b)@),
                None => r is Err && final(self)@ == old(self)@,
            },
    {
        proof { self.lemma_view(); }
        match self.package_mut().part_mut(&slide_ref.partname) {
            Some(p) => Ok(&mut p.blob),
            None => Err(PptxError::PartNotFound(slide_ref.partname.to_string())),
        }
    }

    /// Rewrites the XML of slide part `name` (its position `i`) to `u`.
    fn set_slide_text(&mut self, i: usize, u: &Vec<char>)
        requires
            i < old(self)@.parts.len(),
        ensures
            final(self)@ == with_blob(old(self)@, i as int, encode_utf8(u@)),
    {
        proof { self.lemma_view(); }
        let nb = crate::slide::chars_blob(u);
        self.package.set_blob_at(i, nb);
        proof { self.lemma_view(); }
        assert(self@.parts =~= with_blob(old(self)@, i as int, encode_utf8(u@)).parts);
    }

    /// The position and the XML of slide part `name`.
    fn slide_text(&self, slide_ref: &SlideRef) -> (r: Result<(usize, Vec<char>), PptxError>)
        ensures
            match find_part(self@.parts, slide_ref@.1, 0) {
                Some(i) => match blob_text(self@.parts[i].blob) {
                    Some(t) => r matches Ok((k, v)) && k as int == i && v@ == t && i < self@.parts.len(),
                    None => r matches Err(e) && e is InvalidXml,
                },
                None => r matches Err(e) && e is PartNotFound,
            },
    {
        proof { self.lemma_view(); }
        let i = match self.package.part_index(slide_ref.partname.as_str()) {
            Some(i) => i,
            None => return Err(PptxError::PartNotFound(slide_ref.partname.to_string())),
        };
        proof { crate::opc::package::lemma_find_part_found(self@.parts, slide_ref@.1, 0); }
        let t = crate::slide::blob_chars(self.package.part_at(i).blob.as_slice())?;
        Ok((i, t))
    }

    /// Sets the slide's transition: its `<p:transition>` element replaced by
    /// `transition_xml`, put before `</p:sld>` (see `transition_set`).
    pub fn set_slide_transition(&mut self, slide_ref: &SlideRef, transition_xml: &str) -> (r: Result<(), PptxError>)
        ensures
            match transition_set(old(self)@, slide_ref@.1, transition_xml@) {
                Some(p) => r is Ok && final(self)@ == p,
                None => r is Err && final(self)@ == old(self)@,
            },
            r matches Err(e) ==> if find_part(old(self)@.parts, slide_ref@.1, 0) is Some { e is InvalidXml } else { e is PartNotFound },
    {
        let (i, t) = self.slide_text(slide_ref)?;
        let t1 = crate::edit::remove_element_chars(&t, "p:transition");
        let end = crate::text::str_to_chars("</p:sld>");
        proof { reveal_strlit("</p:sld>"); }
        assert(end@ == slide_end());
        match crate::edit::rfind_chars(&t1, &end) {
            Some(q) => {
                proof { crate::edit::lemma_rfind_from(t1@, end@, t1@.len() - end@.len()); }
                let u = crate::edit::insert_at(&t1, q, transition_xml);
                self.set_slide_text(i, &u);
                Ok(())
            },
            None => Err(PptxError::InvalidXml("slide XML does not contain </p:sld>".to_owned())),
        }
    }

    /// Sets the slide's animations: its `<p:timing>` element removed and, unless
    /// `timing_xml` is empty, `timing_xml` put before `</p:sld>` (see `animations_set`).
    pub fn set_slide_animations(&mut self, slide_ref: &SlideRef, timing_xml: &str) -> (r: Result<(), PptxError>)
        ensures
            match animations_set(old(self)@, slide_ref@.1, timing_xml@) {
                Some(p) => r is Ok && final(self)@ == p,
                None => r is Err && final(self)@ == old(self)@,
            },
            r matches Err(e) ==> if find_part(old(self)@.parts, slide_ref@.1, 0) is Some { e is InvalidXml } else { e is PartNotFound },
    {
        let (i, t) = self.slide_text(slide_ref)?;
        let t1 = crate::edit::remove_element_chars(&t, "p:timing");
        if timing_xml.is_empty() {
            self.set_slide_text(i, &t1);
            return Ok(());
        }
        let end = crate::text::str_to_chars("</p:sld>");
        proof { reveal_strlit("</p:sld>"); }
        assert(end@ == slide_end());
        match crate::edit::rfind_chars(&t1, &end) {
            Some(q) => {
                proof { crate::edit::lemma_rfind_from(t1@, end@, t1@.len() - end@.len()); }
                let u = crate::edit::insert_at(&t1, q, timing_xml);
                self.set_slide_text(i, &u);
                Ok(())
            },
            None => Err(PptxError::InvalidXml("slide XML does not contain </p:sld>".to_owned())),
        }
    }

    /// Clears the slide's background so that it follows the master: its `<p:bg>` element
    /// is removed (see `background_cleared`).
    pub fn clear_slide_background(&mut self, slide_ref: &SlideRef) -> (r: Result<(), PptxError>)
        ensures
            match background_cleared(old(self)@, slide_ref@.1) {
                Some(p) => r is Ok && final(self)@ == p,
                None => r is Err && final(self)@ == old(self)@,
            },
    {
        let (i, t) = self.slide_text(slide_ref)?;
        let t1 = crate::edit::remove_element_chars(&t, "p:bg");
        self.set_slide_text(i, &t1);
        Ok(())
    }

    /// Sets a picture background on the slide: the image that the slide's relationship
    /// `image_r_id` points to (see `background_image_set`).
    pub fn set_slide_background_image(&mut self, slide_ref: &SlideRef, image_r_id: &str) -> (r: Result<(), PptxError>)
        ensures
            match background_image_set(old(self)@, slide_ref@.1, image_r_id@) {
                Some(p) => r is Ok && final(self)@ == p,
                None => r is Err && final(self)@ == old(self)@,
            },
    {
        let ghost pkg0 = self@;
        let blob = self.slide_xml_mut(slide_ref)?;
        let ghost b0 = blob@;
        let res = crate::slide::set_slide_background_image(blob, image_r_id);
        proof {
            if res is Err {
                let i = find_part(pkg0.parts, slide_ref@.1, 0).unwrap();
                crate::opc::package::lemma_find_part_found(pkg0.parts, slide_ref@.1, 0);
                assert(b0 == pkg0.parts[i].blob);
                assert(with_blob(pkg0, i, b0).parts =~= pkg0.parts);
            }
        }
        res
    }
}

} // verus!
