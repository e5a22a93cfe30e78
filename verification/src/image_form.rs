//! The image transformation dialog: which of its controls can be used, when
//! the preview lists its items again, which item it previews, and the size
//! labels beside the preview.

use vstd::prelude::*;
use vstd::string::StringExecFns;
use crate::fmt::{decimal, push_decimal, string_push};

verus! {

/// How images are scaled.
#[derive(Debug, Clone, Copy, PartialEq, Eq, Structural)]
pub enum ScaleAlgorithm {
    NearestNeighbour,
    Bilinear,
    Bicubic,
    Xbrz,
    Esrgan,
}

/// How the space around an image is filled to reach an aspect ratio.
#[derive(Debug, Clone, Copy, PartialEq, Eq, Structural)]
pub enum InfillTechnique {
    Automatic,
    Blur,
    Solid,
}

/// The switches of the dialog that decide which controls can be used.
#[derive(Debug, Clone, Copy, PartialEq, Eq, Structural)]
pub struct ImageFormSwitches {
    pub scale_enabled: bool,
    pub use_target_width: bool,
    pub use_target_height: bool,
    pub use_maximum_scaling: bool,
    pub scale_algorithm: ScaleAlgorithm,
    pub infill_enabled: bool,
    pub infill_technique: InfillTechnique,
    pub use_gaussian: bool,
    pub use_brightness: bool,
    pub use_contrast: bool,
    pub compression_enabled: bool,
}

/// Which controls can be used.
#[derive(Debug, Clone, Copy, PartialEq, Eq, Structural)]
pub struct ImageFormEnabled {
    pub target_width: bool,
    pub target_height: bool,
    pub fit_algorithm: bool,
    pub esrgan_model: bool,
    pub maximum_scaling: bool,
    pub other_scaling: bool,
    pub infill_colour: bool,
    pub gaussian_radius: bool,
    pub brightness: bool,
    pub contrast: bool,
    pub other_infill: bool,
    pub compression: bool,
}

/// The controls that can be used under these switches: each part's
/// controls only while the part is switched on; the target sizes only when
/// chosen; the fit algorithm only with both a target width and height; the
/// ESRGAN model only for ESRGAN scaling; the infill colour only for blur
/// infill; each post-processing amount only when its effect is chosen.
pub open spec fn image_form_enabled_spec(s: ImageFormSwitches) -> ImageFormEnabled {
    ImageFormEnabled {
        target_width: s.scale_enabled && s.use_target_width,
        target_height: s.scale_enabled && s.use_target_height,
        fit_algorithm: s.scale_enabled && s.use_target_width && s.use_target_height,
        esrgan_model: s.scale_enabled && s.scale_algorithm == ScaleAlgorithm::Esrgan,
        maximum_scaling: s.scale_enabled && s.use_maximum_scaling,
        other_scaling: s.scale_enabled,
        infill_colour: s.infill_enabled && s.infill_technique == InfillTechnique::Blur,
        gaussian_radius: s.infill_enabled && s.use_gaussian,
        brightness: s.infill_enabled && s.use_brightness,
        contrast: s.infill_enabled && s.use_contrast,
        other_infill: s.infill_enabled,
        compression: s.compression_enabled,
    }
}

/// Which controls can be used under these switches.
pub fn image_form_enabled(s: &ImageFormSwitches) -> (e: ImageFormEnabled)
    ensures
        e == image_form_enabled_spec(*s),
{
    ImageFormEnabled {
        target_width: s.scale_enabled && s.use_target_width,
        target_height: s.scale_enabled && s.use_target_height,
        fit_algorithm: s.scale_enabled && s.use_target_width && s.use_target_height,
        esrgan_model: s.scale_enabled && s.scale_algorithm == ScaleAlgorithm::Esrgan,
        maximum_scaling: s.scale_enabled && s.use_maximum_scaling,
        other_scaling: s.scale_enabled,
        infill_colour: s.infill_enabled && s.infill_technique == InfillTechnique::Blur,
        gaussian_radius: s.infill_enabled && s.use_gaussian,
        brightness: s.infill_enabled && s.use_brightness,
        contrast: s.infill_enabled && s.use_contrast,
        other_infill: s.infill_enabled,
        compression: s.compression_enabled,
    }
}

/// What the dialog remembers between frames about its preview.
pub struct PreviewState {
    /// The list of items to preview was made again; the preview grid lays
    /// itself out again when it sees this.
    pub source_items_updated: bool,
    /// The dialog was open in the last frame.
    pub opened: bool,
    /// The item whose transformed preview was asked for last.
    pub selected_item_id: Option<u64>,
}

impl PreviewState {
    /// A dialog not yet shown, with nothing previewed.
    pub fn new() -> (p: Self)
        ensures
            !p.source_items_updated,
            !p.opened,
            p.selected_item_id is None,
    {
        PreviewState { source_items_updated: false, opened: false, selected_item_id: None }
    }

    /// Whether the items to preview must be listed at the start of a frame:
    /// when the dialog opens.
    pub fn lists_items_at_start(&self) -> (r: bool)
        ensures
            r == !self.opened,
    {
        !self.opened
    }

    /// The end of a frame. `listed` tells whether the items were listed in
    /// this frame (at the start, or because another source was chosen),
    /// `params_changed` whether the transformation's settings changed, and
    /// `open` whether the dialog stays open. A list made in the last frame
    /// counts as seen; a new list, or new settings, are marked for the
    /// preview grid.
    pub fn end_frame(&mut self, listed: bool, params_changed: bool, open: bool)
        ensures
            final(self).source_items_updated == (params_changed || (!old(
                self,
            ).source_items_updated && listed)),
            final(self).opened == open,
            final(self).selected_item_id == old(self).selected_item_id,
    {
        let new_last_frame = self.source_items_updated;
        if listed {
            self.source_items_updated = true;
        }
        if new_last_frame {
            self.source_items_updated = false;
        }
        if params_changed {
            self.source_items_updated = true;
        }
        self.opened = open;
    }

    /// The item whose preview must be asked for: the first selected item of
    /// the preview grid, unless it is the one previewed last with the same
    /// settings (`same_params`). Remembers it.
    pub fn preview_request(&mut self, first_selected: Option<u64>, same_params: bool) -> (r:
        Option<u64>)
        ensures
            r == (match first_selected {
                Some(id) => if old(self).selected_item_id == Some(id) && same_params {
                    None
                } else {
                    Some(id)
                },
                None => None,
            }),
            final(self).selected_item_id == (match r {
                Some(id) => Some(id),
                None => old(self).selected_item_id,
            }),
            final(self).source_items_updated == old(self).source_items_updated,
            final(self).opened == old(self).opened,
    {
        match first_selected {
            Some(id) => {
                if self.selected_item_id == Some(id) && same_params {
                    None
                } else {
                    self.selected_item_id = Some(id);
                    Some(id)
                }
            },
            None => None,
        }
    }
}

/// The label of an image size beside the preview: "Original: " or
/// "Transformed: ", the width, a multiplication sign and the height.
pub open spec fn size_text(of_source: bool, width: u32, height: u32) -> Seq<char> {
    (if of_source {
        "Original: "@
    } else {
        "Transformed: "@
    }) + decimal(width as nat) + seq!['\u{00d7}'] + decimal(height as nat)
}

/// The label of an image size beside the preview.
pub fn size_label(of_source: bool, width: u32, height: u32) -> (s: String)
    ensures
        s@ == size_text(of_source, width, height),
{
    let mut s = if of_source {
        String::from_str("Original: ")
    } else {
        String::from_str("Transformed: ")
    };
    push_decimal(&mut s, width as u64);
    string_push(&mut s, '\u{00d7}');
    push_decimal(&mut s, height as u64);
    s
}

} // verus!
