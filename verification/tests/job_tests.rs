use reverbq::errors::ExternalToolError;
use reverbq::job::{conclude, filter_string, plan_job, u8_decimal, EffectParams, JobEvent};

fn params() -> EffectParams {
    EffectParams {
        delay: 60,
        decay: "0.4".to_string(),
        out_gain: "0.88".to_string(),
        tempo: "1.06".to_string(),
    }
}

#[test]
fn u8_decimal_renders_exact_numerals() {
    assert_eq!(u8_decimal(0), "0");
    assert_eq!(u8_decimal(7), "7");
    assert_eq!(u8_decimal(10), "10");
    assert_eq!(u8_decimal(42), "42");
    assert_eq!(u8_decimal(100), "100");
    assert_eq!(u8_decimal(207), "207");
    assert_eq!(u8_decimal(255), "255");
}

#[test]
fn filter_string_is_the_exact_filter_graph() {
    assert_eq!(
        filter_string(&params()),
        "aecho=1.0:0.88:60:0.4,asetrate=48000*1.06,aresample=48000*1.06,atempo=1.06"
    );
}

#[test]
fn filter_string_carries_fractional_knobs_verbatim() {
    let p = EffectParams {
        delay: 255,
        decay: "00.5000".to_string(),
        out_gain: "1e-2".to_string(),
        tempo: "2".to_string(),
    };
    assert_eq!(
        filter_string(&p),
        "aecho=1.0:1e-2:255:00.5000,asetrate=48000*2,aresample=48000*2,atempo=2"
    );
}

#[test]
fn plan_names_both_tools_and_their_arguments() {
    let plan = plan_job("https://example.invalid/v", &params());
    assert_eq!(plan.fetch_program, "youtube-dl");
    assert_eq!(
        plan.fetch_args,
        vec!["https://example.invalid/v", "-o", "-", "-q"]
    );
    assert_eq!(plan.audio_program, "ffmpeg");
    assert_eq!(
        plan.audio_args,
        vec![
            "-i",
            "pipe:",
            "-loglevel",
            "error",
            "-vn",
            "-filter:a",
            "aecho=1.0:0.88:60:0.4,asetrate=48000*1.06,aresample=48000*1.06,atempo=1.06",
            "-f",
            "mp3",
            "pipe:",
        ]
    );
}

#[test]
fn successful_chain_yields_the_output_bytes() {
    let ev = JobEvent::Completed {
        fetch_success: true,
        audio_success: true,
        output: vec![3, 1, 4],
    };
    assert_eq!(conclude(ev), Ok(vec![3, 1, 4]));
}

#[test]
fn failed_fetch_is_an_external_tool_error() {
    // Even though the audio tool exited cleanly and produced bytes, a
    // fetch tool that exited nonzero fails the whole run: no partial
    // output is reported as success.
    let ev = JobEvent::Completed {
        fetch_success: false,
        audio_success: true,
        output: vec![1, 2, 3],
    };
    assert_eq!(conclude(ev), Err(ExternalToolError::ToolFailed));
}

#[test]
fn failed_audio_tool_is_an_external_tool_error() {
    let ev = JobEvent::Completed {
        fetch_success: true,
        audio_success: false,
        output: Vec::new(),
    };
    assert_eq!(conclude(ev), Err(ExternalToolError::ToolFailed));
}

#[test]
fn each_wiring_failure_keeps_its_own_error() {
    assert_eq!(
        conclude(JobEvent::FetchSpawnFailed),
        Err(ExternalToolError::FetchSpawnFailed)
    );
    assert_eq!(
        conclude(JobEvent::PipeUnavailable),
        Err(ExternalToolError::PipeUnavailable)
    );
    assert_eq!(
        conclude(JobEvent::AudioSpawnFailed),
        Err(ExternalToolError::AudioSpawnFailed)
    );
}

#[test]
fn tool_errors_have_short_messages() {
    assert_eq!(
        ExternalToolError::ToolFailed.message(),
        "an external tool exited with failure"
    );
    assert_eq!(
        ExternalToolError::FetchSpawnFailed.message(),
        "could not start the fetch tool"
    );
}
