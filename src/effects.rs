//! Effects and transitions a clip can carry, named as the media framework
//! knows them.
use vstd::prelude::*;

use crate::clip::{pairs_view, put_pair, set_pair};
use crate::types::EditingError;

verus! {

/// A kind of effect; `Custom` names a framework element directly.
#[derive(Debug, Clone, PartialEq, Eq)]
pub enum EffectType {
    ColorCorrection,
    ColorGrading,
    Blur,
    Sharpen,
    Crop,
    Scale,
    Rotate,
    Flip,
    Text,
    Overlay,
    Volume,
    Fade,
    Equalizer,
    Reverb,
    Delay,
    Custom(String),
}

pub open spec fn effect_gst_name(e: EffectType) -> Seq<char> {
    match e {
        EffectType::ColorCorrection => "videobalance"@,
        EffectType::ColorGrading => "videoconvert ! glcolorbalance"@,
        EffectType::Blur => "gaussianblur"@,
        EffectType::Sharpen => "unsharp"@,
        EffectType::Crop => "videocrop"@,
        EffectType::Scale => "videoscale"@,
        EffectType::Rotate => "videoflip"@,
        EffectType::Flip => "videoflip"@,
        EffectType::Text => "textoverlay"@,
        EffectType::Overlay => "compositor"@,
        EffectType::Volume => "volume"@,
        EffectType::Fade => "volume"@,
        EffectType::Equalizer => "equalizer-10bands"@,
        EffectType::Reverb => "audioecho"@,
        EffectType::Delay => "audiodelay"@,
        EffectType::Custom(name) => name@,
    }
}

/// The parameters an effect of kind `e` starts with.
pub open spec fn effect_default_parameters(e: EffectType) -> Seq<(Seq<char>, Seq<char>)> {
    match e {
        EffectType::ColorCorrection => seq![("brightness"@, "0.0"@), ("contrast"@, "1.0"@), ("saturation"@, "1.0"@), ("hue"@, "0.0"@)],
        EffectType::Blur => seq![("sigma"@, "1.0"@)],
        EffectType::Volume => seq![("volume"@, "1.0"@)],
        EffectType::Text => seq![("text"@, "Text"@), ("font-desc"@, "Sans 24"@), ("valignment"@, "center"@), ("halignment"@, "center"@)],
        _ => Seq::empty(),
    }
}

impl EffectType {
    /// The framework element name of the effect.
    pub fn to_gst_name(&self) -> (r: &str)
        ensures
            r@ == effect_gst_name(*self),
    {
        match self {
            EffectType::ColorCorrection => "videobalance",
            EffectType::ColorGrading => "videoconvert ! glcolorbalance",
            EffectType::Blur => "gaussianblur",
            EffectType::Sharpen => "unsharp",
            EffectType::Crop => "videocrop",
            EffectType::Scale => "videoscale",
            EffectType::Rotate => "videoflip",
            EffectType::Flip => "videoflip",
            EffectType::Text => "textoverlay",
            EffectType::Overlay => "compositor",
            EffectType::Volume => "volume",
            EffectType::Fade => "volume",
            EffectType::Equalizer => "equalizer-10bands",
            EffectType::Reverb => "audioecho",
            EffectType::Delay => "audiodelay",
            EffectType::Custom(name) => name.as_str(),
        }
    }

    /// The parameters an effect of this kind starts with.
    pub fn default_parameters(&self) -> (r: Vec<(String, String)>)
        ensures
            pairs_view(r@) == effect_default_parameters(*self),
    {
        let mut params: Vec<(String, String)> = Vec::new();
        match self {
            EffectType::ColorCorrection => {
                params.push(("brightness".to_owned(), "0.0".to_owned()));
                params.push(("contrast".to_owned(), "1.0".to_owned()));
                params.push(("saturation".to_owned(), "1.0".to_owned()));
                params.push(("hue".to_owned(), "0.0".to_owned()));
            },
            EffectType::Blur => {
                params.push(("sigma".to_owned(), "1.0".to_owned()));
            },
            EffectType::Volume => {
                params.push(("volume".to_owned(), "1.0".to_owned()));
            },
            EffectType::Text => {
                params.push(("text".to_owned(), "Text".to_owned()));
                params.push(("font-desc".to_owned(), "Sans 24".to_owned()));
                params.push(("valignment".to_owned(), "center".to_owned()));
                params.push(("halignment".to_owned(), "center".to_owned()));
            },
            _ => {},
        }
        assert(pairs_view(params@) =~= effect_default_parameters(*self));
        params
    }
}

/// A kind of transition between clips.
#[derive(Debug, Clone, PartialEq, Eq)]
pub enum TransitionType {
    Crossfade,
    Wipe,
    Slide,
    Fade,
    AudioCrossfade,
    Custom(String),
}

pub open spec fn transition_gst_name(t: TransitionType) -> Seq<char> {
    match t {
        TransitionType::Crossfade => "crossfade"@,
        TransitionType::Wipe => "wipe"@,
        TransitionType::Slide => "slide"@,
        TransitionType::Fade => "fade"@,
        TransitionType::AudioCrossfade => "audiomixer"@,
        TransitionType::Custom(name) => name@,
    }
}

impl TransitionType {
    /// The framework element name of the transition.
    pub fn to_gst_name(&self) -> (r: &str)
        ensures
            r@ == transition_gst_name(*self),
    {
        match self {
            TransitionType::Crossfade => "crossfade",
            TransitionType::Wipe => "wipe",
            TransitionType::Slide => "slide",
            TransitionType::Fade => "fade",
            TransitionType::AudioCrossfade => "audiomixer",
            TransitionType::Custom(name) => name.as_str(),
        }
    }
}

/// An effect with its parameters.
#[derive(Debug)]
pub struct Effect {
    pub effect_type: EffectType,
    pub parameters: Vec<(String, String)>,
}

impl Effect {
    /// An effect of this kind with its default parameters.
    pub fn new(effect_type: EffectType) -> (r: Effect)
        ensures
            r.effect_type == effect_type,
            pairs_view(r.parameters@) == effect_default_parameters(effect_type),
    {
        let parameters = effect_type.default_parameters();
        Effect { effect_type, parameters }
    }

    /// Sets a parameter, replacing the value of an equal name.
    pub fn set_parameter(&mut self, name: &str, value: &str) -> (r: Result<(), EditingError>)
        ensures
            r is Ok,
            final(self).effect_type == old(self).effect_type,
            pairs_view(final(self).parameters@) == set_pair(pairs_view(old(self).parameters@), name@, value@),
    {
        put_pair(&mut self.parameters, name.to_owned(), value.to_owned());
        Ok(())
    }
}

/// A transition with its parameters.
#[derive(Debug)]
pub struct Transition {
    pub transition_type: TransitionType,
    pub parameters: Vec<(String, String)>,
}

impl Transition {
    /// A transition of this kind with no parameters set.
    pub fn new(transition_type: TransitionType) -> (r: Transition)
        ensures
            r.transition_type == transition_type,
            r.parameters@.len() == 0,
    {
        Transition { transition_type, parameters: Vec::new() }
    }

    /// Sets a parameter, replacing the value of an equal name.
    pub fn set_parameter(&mut self, name: &str, value: &str) -> (r: Result<(), EditingError>)
        ensures
            r is Ok,
            final(self).transition_type == old(self).transition_type,
            pairs_view(final(self).parameters@) == set_pair(pairs_view(old(self).parameters@), name@, value@),
    {
        put_pair(&mut self.parameters, name.to_owned(), value.to_owned());
        Ok(())
    }
}

/// Every built-in effect kind, in table order.
pub fn get_available_effects() -> (r: Vec<EffectType>)
    ensures
        r@ == seq![EffectType::ColorCorrection, EffectType::ColorGrading, EffectType::Blur, EffectType::Sharpen, EffectType::Crop, EffectType::Scale, EffectType::Rotate, EffectType::Flip, EffectType::Text, EffectType::Overlay, EffectType::Volume, EffectType::Fade, EffectType::Equalizer, EffectType::Reverb, EffectType::Delay],
{
    vec![EffectType::ColorCorrection, EffectType::ColorGrading, EffectType::Blur, EffectType::Sharpen, EffectType::Crop, EffectType::Scale, EffectType::Rotate, EffectType::Flip, EffectType::Text, EffectType::Overlay, EffectType::Volume, EffectType::Fade, EffectType::Equalizer, EffectType::Reverb, EffectType::Delay]
}

/// Every built-in transition kind, in table order.
pub fn get_available_transitions() -> (r: Vec<TransitionType>)
    ensures
        r@ == seq![TransitionType::Crossfade, TransitionType::Wipe, TransitionType::Slide, TransitionType::Fade, TransitionType::AudioCrossfade],
{
    vec![TransitionType::Crossfade, TransitionType::Wipe, TransitionType::Slide, TransitionType::Fade, TransitionType::AudioCrossfade]
}

} // verus!
