//! Where traces go.

use vstd::prelude::*;

use crate::text::same_text;

verus! {

/// How and where spans are exported.
#[derive(Debug, Clone, Copy, PartialEq, Eq, Structural)]
pub enum TracingMode {
    /// Structured JSON to stdout only.
    Console,
    /// JSON to stdout **and** OTLP gRPC to a Jaeger / OpenTelemetry collector.
    Otlp,
}

/// The lower-case equivalent of a text.
pub uninterp spec fn lowercase(s: Seq<char>) -> Seq<char>;

/// `str::to_lowercase` gives the lower-case equivalent of a text, which depends
/// on the text alone.
#[verifier::external_body]
fn to_lowercase(s: &str) -> (r: String)
    ensures
        r@ == lowercase(s@),
{
    s.to_lowercase()
}

impl TracingMode {
    /// The mode that a setting of `OTEL_MODE` asks for, in any mixture of cases;
    /// `Console` unless it is `otlp`.
    pub fn from_setting(setting: Option<&str>) -> (mode: Self)
        ensures
            mode == (match setting {
                Some(text) => if lowercase(text@) == "otlp"@ {
                    TracingMode::Otlp
                } else {
                    TracingMode::Console
                },
                None => TracingMode::Console,
            }),
    {
        match setting {
            Some(text) => Self::from_lowercase(to_lowercase(text).as_str()),
            None => TracingMode::Console,
        }
    }

    /// Whether spans are exported, given whether the exporter could be set up. A
    /// failure there leaves the service with its log alone.
    pub fn exports_spans(self, exporter_ready: bool) -> (exports: bool)
        ensures
            exports == (self == TracingMode::Otlp && exporter_ready),
    {
        self == TracingMode::Otlp && exporter_ready
    }

    /// The mode of this name in lower case; `Console` unless it is `otlp`.
    pub fn from_lowercase(name: &str) -> (mode: Self)
        ensures
            mode == (if name@ == "otlp"@ {
                TracingMode::Otlp
            } else {
                TracingMode::Console
            }),
    {
        if same_text(name, "otlp") {
            TracingMode::Otlp
        } else {
            TracingMode::Console
        }
    }
}

/// The address of the collector, by default that of a local one.
pub fn otlp_endpoint(setting: Option<String>) -> (endpoint: String)
    ensures
        match setting {
            Some(text) => endpoint == text,
            None => endpoint@ == "http://localhost:4317"@,
        },
{
    match setting {
        Some(text) => text,
        None => "http://localhost:4317".to_string(),
    }
}

} // verus!
