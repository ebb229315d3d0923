//! The job runner's verifiable half: planning the two external commands
//! (the media fetch tool and the audio filter tool, joined by a pipe), and
//! deciding the outcome once the unverified shell reports how the
//! subprocess chain went.
//!
//! The shell performs the spawning, piping and awaiting; everything it
//! needs to know — program names, argument lists, the filter-graph string —
//! is computed here, and everything it observed comes back as a
//! [`JobEvent`] that [`conclude`] judges.

use vstd::prelude::*;
use vstd::assert_seqs_equal;
use vstd::string::StringExecFns;
use crate::errors::ExternalToolError;
use crate::strutil::push_char;

verus! {

/// The audio-effect parameters of one job, as they arrived in the request.
///
/// `delay` is an integral echo delay in the audio tool's units. The three
/// remaining knobs are fractional and are passed through to the tool's
/// filter-string syntax verbatim, exactly as the client wrote them; this
/// layer validates none of their ranges, the external tool enforces its
/// own bounds and fails the pipeline on nonsense.
pub struct EffectParams {
    pub delay: u8,
    pub decay: String,
    pub out_gain: String,
    pub tempo: String,
}

/// The decimal digits, indexed by value.
pub const DIGITS: [char; 10] = ['0', '1', '2', '3', '4', '5', '6', '7', '8', '9'];

/// The usual decimal numeral of `n`: no sign, no leading zero, `"0"` for 0.
pub open spec fn spec_decimal(n: int) -> Seq<char>
    decreases n,
{
    if n < 10 {
        seq![DIGITS@[if n < 0 { 0int } else { n }]]
    } else {
        spec_decimal(n / 10).push(DIGITS@[n % 10])
    }
}

/// Renders a byte-sized integer as its decimal numeral.
pub fn u8_decimal(n: u8) -> (s: String)
    ensures
        s@ == spec_decimal(n as int),
{
    let mut s = String::new();
    if n >= 100 {
        push_digit(&mut s, n / 100);
    }
    if n >= 10 {
        push_digit(&mut s, (n / 10) % 10);
    }
    push_digit(&mut s, n % 10);
    proof {
        let m = n as int;
        if m >= 100 {
            assert((m / 10) / 10 == m / 100) by (nonlinear_arith)
                requires
                    100 <= m <= 255,
            ;
            assert(spec_decimal(m) == spec_decimal(m / 10).push(DIGITS@[m % 10]));
            assert(spec_decimal(m / 10) == spec_decimal(m / 100).push(DIGITS@[(m / 10) % 10]));
            assert(m / 100 < 10);
            assert(spec_decimal(m / 100) == seq![DIGITS@[m / 100]]);
            assert_seqs_equal!(s@ == spec_decimal(m));
        } else if m >= 10 {
            assert(m / 10 < 10);
            assert(spec_decimal(m) == spec_decimal(m / 10).push(DIGITS@[m % 10]));
            assert(spec_decimal(m / 10) == seq![DIGITS@[m / 10]]);
            assert(s@ =~= spec_decimal(m));
        } else {
            assert(s@ =~= spec_decimal(m));
        }
    }
    s
}

/// Appends the digit character of `d` (a single decimal digit) to `s`.
fn push_digit(s: &mut String, d: u8)
    requires
        d < 10,
    ensures
        final(s)@ == old(s)@.push(DIGITS@[d as int]),
{
    let c = DIGITS[d as usize];
    push_char(s, c);
}

/// The audio tool's filter-graph string for `p`: an echo pass with unity
/// input gain and the given output gain, delay and decay, followed by the
/// sample-rate multiply / resample / tempo triple that speeds playback up
/// by the tempo factor without shifting pitch.
pub open spec fn spec_filter(p: EffectParams) -> Seq<char> {
    "aecho=1.0:"@ + p.out_gain@ + ":"@ + spec_decimal(p.delay as int) + ":"@ + p.decay@
        + ",asetrate=48000*"@ + p.tempo@ + ",aresample=48000*"@ + p.tempo@ + ",atempo="@
        + p.tempo@
}

/// Builds the filter-graph string for `p`.
pub fn filter_string(p: &EffectParams) -> (s: String)
    ensures
        s@ == spec_filter(*p),
{
    let mut s: String = "aecho=1.0:".to_owned();
    s.append(p.out_gain.as_str());
    s.append(":");
    let delay = u8_decimal(p.delay);
    s.append(delay.as_str());
    s.append(":");
    s.append(p.decay.as_str());
    s.append(",asetrate=48000*");
    s.append(p.tempo.as_str());
    s.append(",aresample=48000*");
    s.append(p.tempo.as_str());
    s.append(",atempo=");
    s.append(p.tempo.as_str());
    proof {
        assert(s@ =~= spec_filter(*p));
    }
    s
}

/// A fully planned subprocess chain for one job: spawn `fetch_program`
/// with `fetch_args`, lead its standard output into `audio_program` run
/// with `audio_args`, and capture the latter's standard output.
pub struct JobPlan {
    pub fetch_program: String,
    pub fetch_args: Vec<String>,
    pub audio_program: String,
    pub audio_args: Vec<String>,
}

impl JobPlan {
    /// What a well-planned job looks like for a source `url` and
    /// parameters `p`: the fetch tool is asked to write raw media for the
    /// URL to standard output quietly, and the audio tool is asked to read
    /// from its standard input, apply the filter graph, and write an mp3
    /// stream to standard output with diagnostics suppressed.
    pub open spec fn spec_for(&self, url: Seq<char>, p: EffectParams) -> bool {
        &&& self.fetch_program@ == "youtube-dl"@
        &&& self.fetch_args@.len() == 4
        &&& self.fetch_args@[0]@ == url
        &&& self.fetch_args@[1]@ == "-o"@
        &&& self.fetch_args@[2]@ == "-"@
        &&& self.fetch_args@[3]@ == "-q"@
        &&& self.audio_program@ == "ffmpeg"@
        &&& self.audio_args@.len() == 10
        &&& self.audio_args@[0]@ == "-i"@
        &&& self.audio_args@[1]@ == "pipe:"@
        &&& self.audio_args@[2]@ == "-loglevel"@
        &&& self.audio_args@[3]@ == "error"@
        &&& self.audio_args@[4]@ == "-vn"@
        &&& self.audio_args@[5]@ == "-filter:a"@
        &&& self.audio_args@[6]@ == spec_filter(p)
        &&& self.audio_args@[7]@ == "-f"@
        &&& self.audio_args@[8]@ == "mp3"@
        &&& self.audio_args@[9]@ == "pipe:"@
    }
}

/// Plans the subprocess chain for one job.
pub fn plan_job(url: &str, p: &EffectParams) -> (plan: JobPlan)
    ensures
        plan.spec_for(url@, *p),
{
    let mut fetch_args: Vec<String> = Vec::new();
    fetch_args.push(url.to_owned());
    fetch_args.push("-o".to_owned());
    fetch_args.push("-".to_owned());
    fetch_args.push("-q".to_owned());
    let mut audio_args: Vec<String> = Vec::new();
    audio_args.push("-i".to_owned());
    audio_args.push("pipe:".to_owned());
    audio_args.push("-loglevel".to_owned());
    audio_args.push("error".to_owned());
    audio_args.push("-vn".to_owned());
    audio_args.push("-filter:a".to_owned());
    audio_args.push(filter_string(p));
    audio_args.push("-f".to_owned());
    audio_args.push("mp3".to_owned());
    audio_args.push("pipe:".to_owned());
    JobPlan {
        fetch_program: "youtube-dl".to_owned(),
        fetch_args,
        audio_program: "ffmpeg".to_owned(),
        audio_args,
    }
}

/// Everything the unverified shell observed of one subprocess chain.
pub enum JobEvent {
    /// The fetch tool could not be spawned at all.
    FetchSpawnFailed,
    /// The fetch tool started, but its standard output could not be taken
    /// as the audio tool's standard input.
    PipeUnavailable,
    /// The audio tool could not be spawned.
    AudioSpawnFailed,
    /// Both tools ran to completion: whether each exited successfully, and
    /// the bytes the audio tool wrote to its standard output.
    Completed { fetch_success: bool, audio_success: bool, output: Vec<u8> },
}

/// The outcome a job event decides: the processed bytes exactly when both
/// tools ran and exited successfully, and the matching tool error
/// otherwise — a failed tool never has its partial output reported as
/// success.
pub open spec fn spec_outcome(ev: JobEvent) -> Result<Seq<u8>, ExternalToolError> {
    match ev {
        JobEvent::FetchSpawnFailed => Err(ExternalToolError::FetchSpawnFailed),
        JobEvent::PipeUnavailable => Err(ExternalToolError::PipeUnavailable),
        JobEvent::AudioSpawnFailed => Err(ExternalToolError::AudioSpawnFailed),
        JobEvent::Completed { fetch_success, audio_success, output } => {
            if fetch_success && audio_success {
                Ok(output@)
            } else {
                Err(ExternalToolError::ToolFailed)
            }
        },
    }
}

/// Judges one finished subprocess chain.
pub fn conclude(ev: JobEvent) -> (r: Result<Vec<u8>, ExternalToolError>)
    ensures
        r matches Ok(b) ==> spec_outcome(ev) == Ok::<Seq<u8>, ExternalToolError>(b@),
        r matches Err(e) ==> spec_outcome(ev) == Err::<Seq<u8>, ExternalToolError>(e),
{
    match ev {
        JobEvent::FetchSpawnFailed => Err(ExternalToolError::FetchSpawnFailed),
        JobEvent::PipeUnavailable => Err(ExternalToolError::PipeUnavailable),
        JobEvent::AudioSpawnFailed => Err(ExternalToolError::AudioSpawnFailed),
        JobEvent::Completed { fetch_success, audio_success, output } => {
            if fetch_success && audio_success {
                Ok(output)
            } else {
                Err(ExternalToolError::ToolFailed)
            }
        },
    }
}

/// Law: a run whose fetch tool exited with failure is judged an external
/// tool error, whatever bytes the audio tool managed to produce — no
/// partial output is ever reported as success.
pub proof fn lemma_failed_fetch_is_error(audio_success: bool, output: Vec<u8>)
    ensures
        spec_outcome(
            JobEvent::Completed { fetch_success: false, audio_success, output },
        ) matches Err(e) && e == ExternalToolError::ToolFailed,
{
}

} // verus!

