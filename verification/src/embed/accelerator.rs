//! Where the model runs.
//!
//! One graph, one runtime: an accelerator is an ONNX Runtime execution
//! provider registered on the session, never a second inference engine. The
//! CPU provider is always there. CoreML and Metal are there only where the
//! build was made with them; `metal` names llama.cpp's Metal backend and never
//! resolves from `auto`.
//!
//! `auto` is resolved once, before any model loads, so the daemon, the doctor
//! and a spawned child all hold, and print, the same concrete answer.

use vstd::prelude::*;

use crate::embed::error::EmbedError;
use crate::text::search::same;

verus! {

/// What the configuration asked for.
#[derive(Debug, Clone, Copy, PartialEq, Eq, Structural)]
pub enum Accelerator {
    /// CoreML where the build and the machine both have it, else CPU.
    Auto,
    /// The CPU provider only: the portable default.
    Cpu,
    /// The CoreML provider; an error when the build or the machine lacks it.
    CoreMl,
    /// llama.cpp's Metal backend; an error in a build without it.
    Metal,
}

/// What a build and the machine it runs on offer besides the CPU.
#[derive(Debug, Clone, Copy, PartialEq, Eq, Structural)]
pub struct Build {
    /// The build was made with CoreML support.
    pub coreml: bool,
    /// The runtime reports the CoreML provider available here.
    pub coreml_here: bool,
    /// The build was made with Metal support, for a machine that has it.
    pub metal: bool,
}

impl Build {
    /// CoreML can be used: built in, and available here.
    pub open spec fn offers_coreml(self) -> bool {
        self.coreml && self.coreml_here
    }

    /// The portable build: the CPU and nothing else.
    pub fn portable() -> (build: Self)
        ensures
            !build.coreml,
            !build.coreml_here,
            !build.metal,
    {
        Build { coreml: false, coreml_here: false, metal: false }
    }
}

impl Default for Accelerator {
    fn default() -> (accelerator: Self)
        ensures
            accelerator == Accelerator::Auto,
    {
        Accelerator::Auto
    }
}

/// What asking for an accelerator comes to.
pub open spec fn settled(asked: Accelerator, build: Build) -> Result<Active, Seq<char>> {
    match asked {
        Accelerator::Cpu => Ok(Active::Cpu),
        Accelerator::Auto => Ok(
            if build.offers_coreml() {
                Active::CoreMl
            } else {
                Active::Cpu
            },
        ),
        Accelerator::CoreMl => if build.offers_coreml() {
            Ok(Active::CoreMl)
        } else if build.coreml {
            Err("the CoreML execution provider is not available on this machine"@)
        } else {
            Err("this build has no CoreML support; build with `--features coreml` on macOS"@)
        },
        Accelerator::Metal => if build.metal {
            Ok(Active::Metal)
        } else {
            Err("this build has no Metal support; build with `--features llama-metal` on macOS"@)
        },
    }
}

impl Accelerator {
    /// The spelling `--accelerator` takes.
    pub open spec fn spelling(self) -> Seq<char> {
        match self {
            Accelerator::Auto => "auto"@,
            Accelerator::Cpu => "cpu"@,
            Accelerator::CoreMl => "coreml"@,
            Accelerator::Metal => "metal"@,
        }
    }

    /// The spelling `--accelerator` takes.
    #[must_use]
    pub fn as_str(self) -> (text: &'static str)
        ensures
            text@ == self.spelling(),
            self == Accelerator::Auto ==> text@ == "auto"@,
            self == Accelerator::Cpu ==> text@ == "cpu"@,
            self == Accelerator::CoreMl ==> text@ == "coreml"@,
            self == Accelerator::Metal ==> text@ == "metal"@,
    {
        match self {
            Accelerator::Auto => "auto",
            Accelerator::Cpu => "cpu",
            Accelerator::CoreMl => "coreml",
            Accelerator::Metal => "metal",
        }
    }

    /// The accelerator a spelling names.
    #[must_use]
    pub fn parse(spelling: &str) -> (found: Option<Self>)
        ensures
            match found {
                Some(accelerator) => accelerator.spelling() == spelling@,
                None => forall|other: Accelerator| #[trigger] other.spelling() != spelling@,
            },
    {
        if same(spelling, "auto") {
            Some(Accelerator::Auto)
        } else if same(spelling, "cpu") {
            Some(Accelerator::Cpu)
        } else if same(spelling, "coreml") {
            Some(Accelerator::CoreMl)
        } else if same(spelling, "metal") {
            Some(Accelerator::Metal)
        } else {
            None
        }
    }

    /// Settle `auto` against a build and the machine it runs on.
    ///
    /// # Errors
    /// [`EmbedError::Backend`] when CoreML or Metal was asked for by name and
    /// this build was made without it, or the runtime reports CoreML
    /// unavailable here.
    pub fn resolve_for(self, build: Build) -> (result: Result<Active, EmbedError>)
        ensures
            match result {
                Ok(active) => settled(self, build) == Ok::<Active, Seq<char>>(active),
                Err(EmbedError::Backend { backend, message }) => backend@ == "accelerator"@
                    && settled(self, build) == Err::<Active, Seq<char>>(message@),
                Err(_) => false,
            },
    {
        let coreml = build.coreml && build.coreml_here;
        let message = match self {
            Accelerator::Cpu => {
                return Ok(Active::Cpu);
            },
            Accelerator::Auto => {
                return Ok(
                    if coreml {
                        Active::CoreMl
                    } else {
                        Active::Cpu
                    },
                );
            },
            Accelerator::CoreMl => if coreml {
                return Ok(Active::CoreMl);
            } else if build.coreml {
                "the CoreML execution provider is not available on this machine"
            } else {
                "this build has no CoreML support; build with `--features coreml` on macOS"
            },
            Accelerator::Metal => if build.metal {
                return Ok(Active::Metal);
            } else {
                "this build has no Metal support; build with `--features llama-metal` on macOS"
            },
        };
        Err(EmbedError::Backend { backend: "accelerator", message: message.to_owned() })
    }

    /// Settle `auto` for the portable build.
    ///
    /// # Errors
    /// [`EmbedError::Backend`] when CoreML or Metal was asked for by name.
    pub fn resolve(self) -> (result: Result<Active, EmbedError>)
        ensures
            match result {
                Ok(active) => active == Active::Cpu && (self == Accelerator::Auto || self
                    == Accelerator::Cpu),
                Err(EmbedError::Backend { backend, message }) => {
                    &&& backend@ == "accelerator"@
                    &&& self == Accelerator::CoreMl && message@
                        == "this build has no CoreML support; build with `--features coreml` on macOS"@
                        || self == Accelerator::Metal && message@
                        == "this build has no Metal support; build with `--features llama-metal` on macOS"@
                },
                Err(_) => false,
            },
    {
        self.resolve_for(Build::portable())
    }
}

/// What the session actually runs on, once `auto` is settled.
#[derive(Debug, Clone, Copy, PartialEq, Eq, Structural)]
pub enum Active {
    /// The CPU provider only.
    Cpu,
    /// The CoreML provider, with the CPU provider behind it for the ops Core
    /// ML has no kernel for.
    CoreMl,
    /// llama.cpp's Metal backend, every layer offloaded.
    Metal,
}

impl Active {
    /// What the doctor, the startup log and a latency row print.
    pub open spec fn spelling(self) -> Seq<char> {
        match self {
            Active::Cpu => "cpu"@,
            Active::CoreMl => "coreml"@,
            Active::Metal => "metal"@,
        }
    }

    /// What the doctor, the startup log and a latency row print.
    #[must_use]
    pub fn as_str(self) -> (text: &'static str)
        ensures
            text@ == self.spelling(),
            self == Active::Cpu ==> text@ == "cpu"@,
            self == Active::CoreMl ==> text@ == "coreml"@,
            self == Active::Metal ==> text@ == "metal"@,
    {
        match self {
            Active::Cpu => "cpu",
            Active::CoreMl => "coreml",
            Active::Metal => "metal",
        }
    }

    /// How many layers of the model llama.cpp offloads: all of them to Metal,
    /// none otherwise.
    pub fn gpu_layers(self) -> (layers: u32)
        ensures
            layers == if self == Active::Metal {
                1000u32
            } else {
                0
            },
    {
        match self {
            Active::Metal => 1000,
            Active::Cpu | Active::CoreMl => 0,
        }
    }
}

/// A spelling names one accelerator, so parsing undoes spelling.
pub proof fn accelerator_spellings_are_distinct(a: Accelerator, b: Accelerator)
    requires
        a.spelling() == b.spelling(),
    ensures
        a == b,
{
    reveal_strlit("auto");
    reveal_strlit("cpu");
    reveal_strlit("coreml");
    reveal_strlit("metal");
    assert("auto"@[0] == 'a' && "cpu"@[1] == 'p' && "coreml"@[1] == 'o' && "metal"@[0] == 'm');
    assert("cpu"@[0] == 'c' && "coreml"@[0] == 'c');
}

/// `auto` and `cpu` load on every machine, and an accelerator asked for by
/// name is never replaced by another one.
pub proof fn a_named_accelerator_is_run_or_refused(asked: Accelerator, build: Build)
    ensures
        asked == Accelerator::Auto || asked == Accelerator::Cpu ==> settled(asked, build) is Ok,
        settled(asked, build) matches Ok(active) ==> asked == Accelerator::Auto
            || active.spelling() == asked.spelling(),
        settled(asked, build) == Ok::<Active, Seq<char>>(Active::Metal) ==> asked
            == Accelerator::Metal,
{
}

/// Left to choose, the fastest that is there is taken; CoreML is run exactly
/// where this build and this machine have it, Metal where the build has it.
pub proof fn the_best_that_is_there_is_taken(build: Build)
    ensures
        build.coreml && build.coreml_here ==> settled(Accelerator::Auto, build) == Ok::<
            Active,
            Seq<char>,
        >(Active::CoreMl),
        !(build.coreml && build.coreml_here) ==> settled(Accelerator::Auto, build) == Ok::<
            Active,
            Seq<char>,
        >(Active::Cpu),
        settled(Accelerator::CoreMl, build) is Ok <==> build.coreml && build.coreml_here,
        settled(Accelerator::Metal, build) is Ok <==> build.metal,
        settled(Accelerator::Cpu, build) == Ok::<Active, Seq<char>>(Active::Cpu),
        settled(Accelerator::CoreMl, build) matches Err(why) ==> why == if build.coreml {
            "the CoreML execution provider is not available on this machine"@
        } else {
            "this build has no CoreML support; build with `--features coreml` on macOS"@
        },
        settled(Accelerator::Metal, build) matches Err(why) ==> why
            == "this build has no Metal support; build with `--features llama-metal` on macOS"@,
{
}

} // verus!
