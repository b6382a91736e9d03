use vstd::prelude::*;
use vstd::string::StringExecFns;

use crate::case::{IpForcePatent, WebResource};
use crate::errors::{CompileError, FetchError, GenerationError};
use crate::parse::spec_parse_llm_output;
use crate::prompt::default_prompt_text;
use crate::search::{extract_judgment_text, judgment_text_of};
use crate::text::{truncate_chars, DOC_CHAR_BUDGET};

verus! {

/// Whether a model output carries a run through to the compile step: its
/// span must parse as the case schema, and the parsed case must render
/// (title and case number present).
pub open spec fn generation_compiles(out: Seq<char>) -> bool {
    match spec_parse_llm_output(out) {
        Ok(fv) => fv.title.len() > 0 && fv.case_no.len() > 0,
        Err(_) => false,
    }
}

/// Where one case run stands. The stages run in a fixed order — fetch,
/// prompt, generate (with parse and render folded in, since neither does
/// I/O), compile — and the first failure short-circuits the run.
pub enum Stage {
    /// Waiting for the document source to deliver the raw text.
    AwaitFetch,
    /// Holding the truncated document, waiting for the prompt store.
    AwaitPrompt { doc: String },
    /// Waiting for the engine's output.
    AwaitGenerate,
    /// Waiting for the external compiler's verdict.
    AwaitCompile { source_path: String, artifact_path: String },
    /// The run produced its artifact.
    Succeeded { title: String, case_no: String, artifact_path: String },
    /// The run stopped; the message says why.
    Failed { message: String },
}

/// What the I/O layer is asked to do next.
pub enum PipelineAction {
    /// Fetch the raw document of this case.
    Fetch { case_id: u32 },
    /// Read the stored system prompt, if any.
    LoadPrompt,
    /// Run one generation with these prompts.
    Generate { system: String, user: String },
    /// Write `source` to `source_path` and compile it to `artifact_path`.
    Compile { source_path: String, artifact_path: String, source: String },
    /// The run is over; inspect the stage.
    Stop,
}

/// One case analysis run: the case record being filled, the output
/// directory artifacts go under, and the stage the run stands at. Runs
/// are independent; nothing is shared between two of them.
pub struct CaseRun {
    pub patent: IpForcePatent,
    pub output_dir: String,
    pub stage: Stage,
}

impl CaseRun {
    /// Opens a run for one case id: a fresh record, and a fetch to do.
    pub fn start(case_id: u32, output_dir: String) -> (r: (CaseRun, PipelineAction))
        ensures
            r.0.stage is AwaitFetch,
            r.0.patent.case_id == case_id,
            r.0.patent@.title.len() == 0,
            r.0.patent@.case_no.len() == 0,
            r.0.output_dir == output_dir,
            r.1 matches PipelineAction::Fetch { case_id: c } && c == case_id,
    {
        let run = CaseRun {
            patent: IpForcePatent::new(case_id),
            output_dir,
            stage: Stage::AwaitFetch,
        };
        (run, PipelineAction::Fetch { case_id })
    }

    /// Takes the fetch outcome: the case page as the source delivered it.
    /// The judgment text is extracted from the page and cut to the fixed
    /// character budget by a hard cut before anything else sees it; a
    /// fetch failure ends the run.
    pub fn on_fetch(&mut self, fetched: Result<String, FetchError>) -> (a: PipelineAction)
        requires
            old(self).stage is AwaitFetch,
        ensures
            final(self).patent == old(self).patent,
            final(self).output_dir == old(self).output_dir,
            fetched matches Ok(page) ==> {
                let text = judgment_text_of(page@);
                &&& final(self).stage matches Stage::AwaitPrompt { doc } && (DOC_CHAR_BUDGET
                    <= text.len() ==> doc@ == text.take(DOC_CHAR_BUDGET as int)) && (
                DOC_CHAR_BUDGET > text.len() ==> doc@ == text)
                &&& a is LoadPrompt
            },
            fetched matches Err(e) ==> (final(self).stage matches Stage::Failed { message }
                && message@ == "fetch failed: "@ + e.message@ && a is Stop),
    {
        match fetched {
            Ok(page) => {
                let text = extract_judgment_text(page.as_str());
                let doc = truncate_chars(text.as_str(), DOC_CHAR_BUDGET);
                self.stage = Stage::AwaitPrompt { doc };
                PipelineAction::LoadPrompt
            },
            Err(e) => {
                let mut message = "fetch failed: ".to_owned();
                message.append(e.message.as_str());
                self.stage = Stage::Failed { message };
                PipelineAction::Stop
            },
        }
    }

    /// Takes the prompt-store outcome (which never fails: a missing stored
    /// prompt falls back to the constant default) and asks for the
    /// generation over the truncated document.
    pub fn on_prompt(&mut self, stored: Option<String>) -> (a: PipelineAction)
        requires
            old(self).stage is AwaitPrompt,
        ensures
            final(self).patent == old(self).patent,
            final(self).output_dir == old(self).output_dir,
            final(self).stage is AwaitGenerate,
            a matches PipelineAction::Generate { system, user } && (old(self).stage
                matches Stage::AwaitPrompt { doc } && user@ == doc@) && (stored matches Some(s)
                ==> system@ == s@) && (stored is None ==> system@ == default_prompt_text()),
    {
        let mut taken = Stage::AwaitGenerate;
        core::mem::swap(&mut self.stage, &mut taken);
        let doc = match taken {
            Stage::AwaitPrompt { doc } => doc,
            _ => vstd::pervasive::unreached(),
        };
        let system = self.patent.system_prompt(stored);
        PipelineAction::Generate { system, user: doc }
    }

    /// Takes the engine's outcome, parses the structured span out of the
    /// raw output into the case record, renders the report source, and
    /// asks for the compile. Generation, parse and render failures each
    /// end the run with a message naming the stage.
    pub fn on_generate(&mut self, generated: Result<String, GenerationError>) -> (a:
        PipelineAction)
        requires
            old(self).stage is AwaitGenerate,
        ensures
            final(self).output_dir == old(self).output_dir,
            final(self).patent.spec_id() == old(self).patent.spec_id(),
            generated matches Ok(out) ==> ({
                &&& ((a matches PipelineAction::Compile { .. }) <==> generation_compiles(out@))
                &&& match spec_parse_llm_output(out@) {
                    Ok(fv) => {
                        &&& final(self).patent@.title == fv.title
                        &&& final(self).patent@.case_no == fv.case_no
                        &&& final(self).patent@.date == fv.date
                        &&& final(self).patent@.result == fv.result
                        &&& final(self).patent@.summary == fv.summary
                        &&& final(self).patent@.keywords == fv.keywords
                        &&& final(self).patent@.claim_chart == fv.claim_chart
                        &&& final(self).patent.case_id == old(self).patent.case_id
                    },
                    Err(_) => final(self).patent == old(self).patent,
                }
            }),
            a matches PipelineAction::Compile { source_path, artifact_path, source } ==> {
                &&& final(self).stage matches Stage::AwaitCompile {
                    source_path: sp,
                    artifact_path: ap,
                } && sp@ == source_path@ && ap@ == artifact_path@
                &&& source_path@ == old(self).output_dir@ + "/"@ + final(self).patent.spec_id()
                    + ".typ"@
                &&& artifact_path@ == old(self).output_dir@ + "/"@ + final(self).patent.spec_id()
                    + ".pdf"@
                &&& final(self).patent.spec_render() matches Ok(s) && source@ == s
            },
            !(a matches PipelineAction::Compile { .. }) ==> ({
                &&& a is Stop
                &&& final(self).stage matches Stage::Failed { message } && message@.len() > 0
            }),
            generated is Err ==> final(self).patent == old(self).patent,
    {
        let out = match generated {
            Ok(out) => out,
            Err(e) => {
                let mut message = "generation failed: ".to_owned();
                message.append(e.message.as_str());
                proof {
                    reveal_strlit("generation failed: ");
                }
                self.stage = Stage::Failed { message };
                return PipelineAction::Stop;
            },
        };
        if let Err(e) = self.patent.load_llm_data(out.as_str()) {
            let message = e.message();
            self.stage = Stage::Failed { message };
            return PipelineAction::Stop;
        }
        let source = match self.patent.render() {
            Ok(s) => s,
            Err(e) => {
                let mut message = "report field missing: ".to_owned();
                message.append(e.missing_field.as_str());
                proof {
                    reveal_strlit("report field missing: ");
                }
                self.stage = Stage::Failed { message };
                return PipelineAction::Stop;
            },
        };
        let id = self.patent.id();
        let mut source_path = self.output_dir.clone();
        source_path.append("/");
        source_path.append(id.as_str());
        source_path.append(".typ");
        let mut artifact_path = self.output_dir.clone();
        artifact_path.append("/");
        artifact_path.append(id.as_str());
        artifact_path.append(".pdf");
        proof {
            assert(source_path@ =~= self.output_dir@ + "/"@ + self.patent.spec_id() + ".typ"@);
            assert(artifact_path@ =~= self.output_dir@ + "/"@ + self.patent.spec_id() + ".pdf"@);
        }
        self.stage = Stage::AwaitCompile {
            source_path: source_path.clone(),
            artifact_path: artifact_path.clone(),
        };
        PipelineAction::Compile { source_path, artifact_path, source }
    }

    /// Takes the compile outcome: on success the run ends with the
    /// artifact, and on a non-zero exit it ends with the failure message.
    pub fn on_compile(&mut self, compiled: Result<(), CompileError>) -> (a: PipelineAction)
        requires
            old(self).stage is AwaitCompile,
        ensures
            final(self).patent == old(self).patent,
            final(self).output_dir == old(self).output_dir,
            a is Stop,
            compiled is Ok ==> (final(self).stage matches Stage::Succeeded {
                title,
                case_no,
                artifact_path,
            } && title@ == old(self).patent@.title && case_no@ == old(self).patent@.case_no && (
            old(self).stage matches Stage::AwaitCompile { artifact_path: ap, .. } && artifact_path@
                == ap@)),
            compiled is Err ==> (final(self).stage matches Stage::Failed { message }
                && message@.len() > 0),
    {
        let mut taken = Stage::AwaitGenerate;
        core::mem::swap(&mut self.stage, &mut taken);
        let artifact_path = match taken {
            Stage::AwaitCompile { artifact_path, .. } => artifact_path,
            _ => vstd::pervasive::unreached(),
        };
        match compiled {
            Ok(()) => {
                self.stage = Stage::Succeeded {
                    title: self.patent.title.clone(),
                    case_no: self.patent.case_no.clone(),
                    artifact_path,
                };
                PipelineAction::Stop
            },
            Err(e) => {
                let mut message = "compile failed: ".to_owned();
                message.append(e.message.as_str());
                proof {
                    reveal_strlit("compile failed: ");
                }
                self.stage = Stage::Failed { message };
                PipelineAction::Stop
            },
        }
    }
}

} // verus!
