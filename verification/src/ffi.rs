//! The types and functions that the Android app reaches through its foreign
//! function interface: project analysis results, UI coordinates and the
//! configuration it shares with the desktop tool.

use vstd::prelude::*;
use crate::amproj::AmprojType;
use crate::config::{popup_dismiss_texts, popup_dismiss_texts_spec, PACKAGE_NAME, PHONE_VIDEO_DIR};
use crate::ui_parser::{
    coords_view, element_center, element_center_fits, element_center_fits_exec, find_element_by_id,
    find_element_by_text,
};

verus! {

/// Error reported across the interface.
#[derive(Debug)]
pub enum AutomotionError {
    General { reason: String },
}

impl AutomotionError {
    /// The error's message (its display text).
    pub fn message(&self) -> (r: String)
        ensures
            r@ == (match self {
                AutomotionError::General { reason } => reason@,
            }),
    {
        match self {
            AutomotionError::General { reason } => reason.clone(),
        }
    }
}

impl From<String> for AutomotionError {
    fn from(s: String) -> (r: AutomotionError) {
        AutomotionError::General { reason: s }
    }
}

impl vstd::std_specs::convert::FromSpecImpl<String> for AutomotionError {
    open spec fn obeys_from_spec() -> bool {
        true
    }

    open spec fn from_spec(s: String) -> AutomotionError {
        AutomotionError::General { reason: s }
    }
}

/// Kind of a project, as the interface reports it.
pub enum FfiAmprojType {
    Project,
    Element,
}

/// Kind and title of a project.
pub struct FfiAmprojInfo {
    pub proj_type: FfiAmprojType,
    pub title: String,
}

/// Screen coordinates.
pub struct FfiCoords {
    pub x: i32,
    pub y: i32,
}

impl FfiAmprojInfo {
    /// The interface form of an analysis result.
    pub fn from_analysis(proj_type: AmprojType, title: String) -> (r: FfiAmprojInfo)
        ensures
            r.title == title,
            proj_type == AmprojType::Project ==> r.proj_type == FfiAmprojType::Project,
            proj_type == AmprojType::Element ==> r.proj_type == FfiAmprojType::Element,
    {
        FfiAmprojInfo {
            proj_type: match proj_type {
                AmprojType::Project => FfiAmprojType::Project,
                AmprojType::Element => FfiAmprojType::Element,
            },
            title,
        }
    }
}

/// The popup texts whose buttons close a popup, in the order they are tried.
pub fn get_popup_dismiss_texts() -> (r: Vec<String>)
    ensures
        r@.len() == popup_dismiss_texts_spec().len(),
        forall|i: int| 0 <= i < r@.len() ==> #[trigger] r@[i]@ == popup_dismiss_texts_spec()[i],
{
    let texts = popup_dismiss_texts();
    let mut out: Vec<String> = Vec::new();
    let mut i: usize = 0;
    while i < texts.len()
        invariant
            0 <= i <= texts.len(),
            texts@.len() == popup_dismiss_texts_spec().len(),
            forall|j: int| 0 <= j < texts@.len() ==> #[trigger] texts@[j]@ == popup_dismiss_texts_spec()[j],
            out@.len() == i,
            forall|j: int| 0 <= j < i ==> #[trigger] out@[j]@ == popup_dismiss_texts_spec()[j],
        decreases texts.len() - i,
    {
        out.push(String::from_str(texts[i]));
        i += 1;
    }
    out
}

/// Alemon's package name.
pub fn get_package_name() -> (r: String)
    ensures
        r@ == PACKAGE_NAME@,
{
    String::from_str(PACKAGE_NAME)
}

/// The phone directory of rendered videos.
pub fn get_phone_video_dir() -> (r: String)
    ensures
        r@ == PHONE_VIDEO_DIR@,
{
    String::from_str(PHONE_VIDEO_DIR)
}

/// The coordinates as interface values.
pub open spec fn ffi_coords_view(c: Option<FfiCoords>) -> Option<(int, int)> {
    match c {
        Some(p) => Some((p.x as int, p.y as int)),
        None => None,
    }
}

/// Centre of the first node in the UI dump whose text contains `target_text`.
pub fn find_ui_element_by_text(xml: String, target_text: String) -> (r: Option<FfiCoords>)
    requires
        element_center_fits(xml@, "text"@, target_text@),
    ensures
        ffi_coords_view(r) == element_center(xml@, "text"@, target_text@),
{
    match find_element_by_text(xml.as_str(), target_text.as_str()) {
        Some((x, y)) => Some(FfiCoords { x, y }),
        None => None,
    }
}

/// Centre of the first node in the UI dump whose resource id contains
/// `target_id`.
pub fn find_ui_element_by_id(xml: String, target_id: String) -> (r: Option<FfiCoords>)
    requires
        element_center_fits(xml@, "resource-id"@, target_id@),
    ensures
        ffi_coords_view(r) == element_center(xml@, "resource-id"@, target_id@),
{
    match find_element_by_id(xml.as_str(), target_id.as_str()) {
        Some((x, y)) => Some(FfiCoords { x, y }),
        None => None,
    }
}

/// `find_ui_element_by_text` when the centre of the matched node can be
/// computed; `None` when it would overflow an `i32`.
pub fn find_ui_element_by_text_checked(xml: String, target_text: String) -> (r: Option<
    Option<FfiCoords>,
>)
    ensures
        match r {
            Some(c) => element_center_fits(xml@, "text"@, target_text@) && ffi_coords_view(c)
                == element_center(xml@, "text"@, target_text@),
            None => !element_center_fits(xml@, "text"@, target_text@),
        },
{
    if element_center_fits_exec(xml.as_str(), "text", target_text.as_str()) {
        Some(find_ui_element_by_text(xml, target_text))
    } else {
        None
    }
}

/// `find_ui_element_by_id` when the centre of the matched node can be
/// computed; `None` when it would overflow an `i32`.
pub fn find_ui_element_by_id_checked(xml: String, target_id: String) -> (r: Option<
    Option<FfiCoords>,
>)
    ensures
        match r {
            Some(c) => element_center_fits(xml@, "resource-id"@, target_id@) && ffi_coords_view(c)
                == element_center(xml@, "resource-id"@, target_id@),
            None => !element_center_fits(xml@, "resource-id"@, target_id@),
        },
{
    if element_center_fits_exec(xml.as_str(), "resource-id", target_id.as_str()) {
        Some(find_ui_element_by_id(xml, target_id))
    } else {
        None
    }
}

} // verus!
