//! Transcription engines: which ones a build has, and which one is meant.

use crate::error::AudioError;
use crate::text::{concat4, same};
use vstd::prelude::*;

verus! {

/// The engines that a build has.
#[derive(Clone, Copy, Debug, PartialEq, Eq, Structural)]
pub struct Build {
    /// Whisper is built in.
    pub transcribe: bool,
    /// sherpa-onnx is built in.
    pub sherpa: bool,
}

/// A speech-to-text backend.
#[derive(Clone, Copy, Debug, PartialEq, Eq, Structural)]
pub enum Engine {
    Whisper,
    Sherpa,
}

impl Build {
    /// Whether there is any engine at all.
    pub open spec fn has_engine(self) -> bool {
        self.transcribe || self.sherpa
    }

    /// Whether `engine` is built in.
    pub open spec fn has(self, engine: Engine) -> bool {
        match engine {
            Engine::Whisper => self.transcribe,
            Engine::Sherpa => self.sherpa,
        }
    }

    /// The names of the engines built in, as an error message lists them.
    pub open spec fn engine_list(self) -> Seq<char> {
        if self.transcribe && self.sherpa {
            "whisper, sherpa"@
        } else if self.transcribe {
            "whisper"@
        } else if self.sherpa {
            "sherpa"@
        } else {
            ""@
        }
    }

    /// The names of the engines built in, as an error message lists them.
    pub fn available_engines(self) -> (r: &'static str)
        ensures
            r@ == self.engine_list(),
    {
        if self.transcribe && self.sherpa {
            "whisper, sherpa"
        } else if self.transcribe {
            "whisper"
        } else if self.sherpa {
            "sherpa"
        } else {
            ""
        }
    }
}

/// The message for an engine that a build does not have.
pub open spec fn unavailable_message(name: Seq<char>, build: Build) -> Seq<char> {
    "Transcription engine '"@ + name + "' is not available in this build. Available: "@
        + build.engine_list()
}

impl Engine {
    /// The name by which a configuration asks for the engine.
    pub open spec fn name(self) -> Seq<char> {
        match self {
            Engine::Whisper => "whisper"@,
            Engine::Sherpa => "sherpa"@,
        }
    }

    /// The engine that an empty name stands for.
    pub open spec fn default_of(build: Build) -> Engine {
        if build.transcribe {
            Engine::Whisper
        } else {
            Engine::Sherpa
        }
    }

    /// Whisper when it is built in, otherwise sherpa-onnx.
    pub fn default_engine(build: Build) -> (r: Engine)
        requires
            build.has_engine(),
        ensures
            r == Engine::default_of(build),
            build.has(r),
    {
        if build.transcribe {
            Engine::Whisper
        } else {
            Engine::Sherpa
        }
    }

    /// Looks an engine up by its configured name. An empty name selects
    /// Whisper when it is built in, otherwise sherpa-onnx.
    pub fn parse(name: &str, build: Build) -> (r: Result<Engine, AudioError>)
        requires
            build.has_engine(),
        ensures
            match r {
                Ok(engine) => {
                    &&& build.has(engine)
                    &&& name@.len() == 0 ==> engine == Engine::default_of(build)
                    &&& name@.len() != 0 ==> name@ == engine.name()
                },
                Err(e) => {
                    &&& name@.len() != 0
                    &&& !(build.transcribe && name@ == Engine::Whisper.name())
                    &&& !(build.sherpa && name@ == Engine::Sherpa.name())
                    &&& e.says_invalid_config(unavailable_message(name@, build))
                },
            },
    {
        proof {
            reveal_strlit("whisper");
            reveal_strlit("sherpa");
        }
        if name.is_empty() {
            Ok(Engine::default_engine(build))
        } else if build.transcribe && same(name, "whisper") {
            Ok(Engine::Whisper)
        } else if build.sherpa && same(name, "sherpa") {
            Ok(Engine::Sherpa)
        } else {
            let message = concat4(
                "Transcription engine '",
                name,
                "' is not available in this build. Available: ",
                build.available_engines(),
            );
            Err(AudioError::InvalidConfig(message))
        }
    }
}

/// Engines are asked for as `whisper` and `sherpa`. Whisper is the default where
/// it is built in, sherpa-onnx otherwise. An engine that cannot be had is told
/// with those that can.
pub proof fn engines_have_their_names(build: Build, name: Seq<char>)
    ensures
        Engine::Whisper.name() == "whisper"@,
        Engine::Sherpa.name() == "sherpa"@,
        build.transcribe ==> Engine::default_of(build) == Engine::Whisper,
        !build.transcribe ==> Engine::default_of(build) == Engine::Sherpa,
        build.has(Engine::Whisper) <==> build.transcribe,
        build.has(Engine::Sherpa) <==> build.sherpa,
        build.has_engine() <==> build.transcribe || build.sherpa,
        unavailable_message(name, build) == "Transcription engine '"@ + name
            + "' is not available in this build. Available: "@ + (if build.transcribe
            && build.sherpa {
            "whisper, sherpa"@
        } else if build.transcribe {
            "whisper"@
        } else if build.sherpa {
            "sherpa"@
        } else {
            ""@
        }),
{
}

} // verus!
