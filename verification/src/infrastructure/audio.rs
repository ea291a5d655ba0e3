//! Local voice output via Piper: complete sentences are streamed through
//! `piper | aplay`, one after the other.

use vstd::prelude::*;

use crate::config::SystemConfig;
use crate::text::{blank, decimal, is_blank, push_decimal};

verus! {

/// Handle used to voice complete sentences.
#[derive(Debug)]
pub struct Speaker {
    pipeline: Option<String>,
}

/// One sentence to voice: run `pipeline` in a shell and feed it `sentence`.
#[derive(Debug)]
pub struct Playback {
    pub pipeline: String,
    pub sentence: String,
}

/// The shell pipeline that voices what it reads: piper emits raw 16-bit mono
/// samples, and aplay renders them.
pub open spec fn pipeline_text(bin: Seq<char>, model: Seq<char>, rate: nat) -> Seq<char> {
    "\""@ + bin + "\" --model \""@ + model + "\" --output-raw | aplay -q -r "@ + decimal(rate)
        + " -f S16_LE -c 1 -t raw -"@
}

/// The shell pipeline that voices what it reads.
fn pipeline_for(bin: &str, model: &str, rate: u32) -> (r: String)
    ensures
        r@ == pipeline_text(bin@, model@, rate as nat),
{
    let mut r = "\"".to_string().concat(bin).concat("\" --model \"").concat(model).concat(
        "\" --output-raw | aplay -q -r ",
    );
    push_decimal(&mut r, rate as u64);
    r.concat(" -f S16_LE -c 1 -t raw -")
}

impl Speaker {
    /// The pipeline that sentences go through; `None` if the speaker is silent.
    pub closed spec fn voice(self) -> Option<Seq<char>> {
        match self.pipeline {
            Some(p) => Some(p@),
            None => None,
        }
    }

    /// A disabled speaker (no audio). Used when voice is off or unconfigured.
    pub fn disabled() -> (r: Self)
        ensures
            r.voice() is None,
    {
        Speaker { pipeline: None }
    }

    /// What to play for a full sentence; a disabled speaker plays nothing.
    pub fn speak(&self, sentence: String) -> (r: Option<Playback>)
        ensures
            match self.voice() {
                Some(p) => r matches Some(play) && play.pipeline@ == p && play.sentence == sentence,
                None => r is None,
            },
    {
        match &self.pipeline {
            Some(p) => Some(Playback { pipeline: p.clone(), sentence }),
            None => None,
        }
    }
}

impl Default for Speaker {
    fn default() -> (r: Self)
        ensures
            r.voice() is None,
    {
        Speaker::disabled()
    }
}

/// The speaker of a configuration. It needs a voice model; without one it is
/// disabled.
pub fn spawn(config: &SystemConfig) -> (r: Speaker)
    ensures
        r.voice() == if blank(config.piper_model@) {
            None
        } else {
            Some(
                pipeline_text(
                    config.piper_bin@,
                    config.piper_model@,
                    config.piper_sample_rate as nat,
                ),
            )
        },
{
    if is_blank(config.piper_model.as_str()) {
        return Speaker::disabled();
    }
    Speaker {
        pipeline: Some(
            pipeline_for(
                config.piper_bin.as_str(),
                config.piper_model.as_str(),
                config.piper_sample_rate,
            ),
        ),
    }
}

/// Speech goes through piper with the configured program and model, each quoted, and
/// then to aplay as mono samples of the configured rate.
pub proof fn law_speech_goes_through_piper(bin: Seq<char>, model: Seq<char>, rate: nat)
    ensures
        pipeline_text(bin, model, rate) == "\""@ + bin + "\" --model \""@ + model
            + "\" --output-raw | aplay -q -r "@ + decimal(rate) + " -f S16_LE -c 1 -t raw -"@,
{
}

} // verus!
