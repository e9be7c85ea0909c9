//! The optimize-or-convert pipeline: classify the requested transform,
//! run the matching codec, and decide what becomes of the staged result —
//! skip, replace the source, save alongside it, or keep the staged file.
use vstd::prelude::*;

use crate::codec;
use crate::names::{spec_ext, spec_stem};
use crate::scan::{lower_seq, supported_ext};

verus! {

/// Preset level for lossless PNG re-optimization.
pub const PNG_PRESET: u8 = 2;

/// Fixed quality for JPEG encoding.
pub const JPEG_QUALITY: u8 = 80;

#[derive(Debug, Clone, Copy, PartialEq, Eq, Structural)]
pub enum TargetFormat {
    Jpg,
    Webp,
    Png,
}

#[derive(Debug, Clone)]
pub enum TransformError {
    /// The source path does not exist.
    NotFound,
    /// The requested conversion target is outside the closed set.
    UnsupportedTarget,
    /// The source format is readable but only via an explicit conversion.
    ConvertRequired,
    /// The source format is outside the supported set.
    UnsupportedSource,
    /// The codec rejected the content.
    CodecFailure(String),
    /// A filesystem step failed.
    IoFailure(String),
}

impl TransformError {
    /// The user-facing description of the failure.
    pub fn message(&self) -> (r: String)
        ensures
            self is NotFound ==> r@ == "File not found"@,
            self is UnsupportedTarget ==> r@ == "Unsupported conversion format"@,
            self is ConvertRequired ==> r@ == "Skipped: Enable auto-convert"@,
            self is UnsupportedSource ==> r@ == "Unsupported file format"@,
            self matches TransformError::CodecFailure(m) ==> r@ == m@,
            self matches TransformError::IoFailure(m) ==> r@ == m@,
    {
        match self {
            TransformError::NotFound => String::from_str("File not found"),
            TransformError::UnsupportedTarget => String::from_str("Unsupported conversion format"),
            TransformError::ConvertRequired => String::from_str("Skipped: Enable auto-convert"),
            TransformError::UnsupportedSource => String::from_str("Unsupported file format"),
            TransformError::CodecFailure(m) => m.clone(),
            TransformError::IoFailure(m) => m.clone(),
        }
    }
}

#[derive(Debug, Clone, Copy, PartialEq, Eq, Structural)]
pub enum TransformKind {
    /// Lossless same-format PNG re-optimization.
    OptimizePng,
    /// Same-format JPEG re-encode at the fixed quality.
    ReencodeJpeg,
    /// Decode (content-sniffed) and re-encode to the target format.
    Convert(TargetFormat),
}

/// The classified transform: what to run, the extension the staged result
/// carries, and whether the target format equals the source's own.
#[derive(Debug)]
pub struct TransformPlan {
    pub kind: TransformKind,
    pub target_ext: String,
    pub same_format: bool,
}

/// The conversion target named by a request string, if it is in the closed
/// set.
pub open spec fn spec_target_of(f: Seq<char>) -> Option<TargetFormat> {
    if f == "jpg"@ || f == "jpeg"@ {
        Some(TargetFormat::Jpg)
    } else if f == "webp"@ {
        Some(TargetFormat::Webp)
    } else if f == "png"@ {
        Some(TargetFormat::Png)
    } else {
        None
    }
}

/// The file extension a conversion target writes.
pub open spec fn target_ext_seq(t: TargetFormat) -> Seq<char> {
    match t {
        TargetFormat::Jpg => "jpg"@,
        TargetFormat::Webp => "webp"@,
        TargetFormat::Png => "png"@,
    }
}

pub open spec fn opt_view(convert_to: Option<String>) -> Option<Seq<char>> {
    match convert_to {
        Some(f) => Some(f@),
        None => None,
    }
}

/// Whether a request classifies to a runnable transform at all: the
/// conversion target is in the closed set, or, without one, the source
/// extension is an optimizable format.
pub open spec fn classifiable(source_ext: Seq<char>, convert_to: Option<Seq<char>>) -> bool {
    let le = lower_seq(source_ext);
    match convert_to {
        Some(f) => spec_target_of(f) is Some,
        None => le == "png"@ || le == "jpg"@ || le == "jpeg"@,
    }
}

/// The transform a classifiable request runs (meaningful only under
/// `classifiable`).
pub open spec fn spec_kind(source_ext: Seq<char>, convert_to: Option<Seq<char>>) -> TransformKind {
    let le = lower_seq(source_ext);
    match convert_to {
        Some(f) => TransformKind::Convert(spec_target_of(f)->Some_0),
        None => if le == "png"@ {
            TransformKind::OptimizePng
        } else {
            TransformKind::ReencodeJpeg
        },
    }
}

/// The full classification contract: what `classify` returns for every
/// source extension and conversion request.
pub open spec fn plan_ok(
    source_ext: Seq<char>,
    convert_to: Option<Seq<char>>,
    r: Result<TransformPlan, TransformError>,
) -> bool {
    let le = lower_seq(source_ext);
    match convert_to {
        Some(f) => match spec_target_of(f) {
            Some(t) => r matches Ok(p) && p.kind == TransformKind::Convert(t) && p.target_ext@
                == target_ext_seq(t) && p.same_format == (le == target_ext_seq(t)),
            None => r matches Err(e) && e is UnsupportedTarget,
        },
        None => if le == "png"@ {
            r matches Ok(p) && p.kind == TransformKind::OptimizePng && p.target_ext@ == le
                && p.same_format
        } else if le == "jpg"@ || le == "jpeg"@ {
            r matches Ok(p) && p.kind == TransformKind::ReencodeJpeg && p.target_ext@ == le
                && p.same_format
        } else if supported_ext(source_ext) {
            r matches Err(e) && e is ConvertRequired
        } else {
            r matches Err(e) && e is UnsupportedSource
        },
    }
}

/// Classifies a request against the source extension: which codec runs,
/// which extension the result carries, and whether the format stays the
/// same. Fails before any work on a target outside the closed set, on a
/// source that needs an explicit conversion, and on an unsupported source.
pub fn classify(source_ext: &String, convert_to: &Option<String>) -> (r: Result<
    TransformPlan,
    TransformError,
>)
    ensures
        plan_ok(source_ext@, opt_view(*convert_to), r),
{
    match convert_to {
        Some(f) => {
            let t = if f.eq(&String::from_str("jpg")) || f.eq(&String::from_str("jpeg")) {
                TargetFormat::Jpg
            } else if f.eq(&String::from_str("webp")) {
                TargetFormat::Webp
            } else if f.eq(&String::from_str("png")) {
                TargetFormat::Png
            } else {
                return Err(TransformError::UnsupportedTarget);
            };
            let (ext_lit, same) = match t {
                TargetFormat::Jpg => ("jpg", crate::scan::eq_lower(source_ext.as_str(), "jpg")),
                TargetFormat::Webp => ("webp", crate::scan::eq_lower(source_ext.as_str(), "webp")),
                TargetFormat::Png => ("png", crate::scan::eq_lower(source_ext.as_str(), "png")),
            };
            Ok(TransformPlan {
                kind: TransformKind::Convert(t),
                target_ext: String::from_str(ext_lit),
                same_format: same,
            })
        },
        None => {
            let s = source_ext.as_str();
            if crate::scan::eq_lower(s, "png") {
                Ok(TransformPlan {
                    kind: TransformKind::OptimizePng,
                    target_ext: String::from_str("png"),
                    same_format: true,
                })
            } else if crate::scan::eq_lower(s, "jpg") {
                Ok(TransformPlan {
                    kind: TransformKind::ReencodeJpeg,
                    target_ext: String::from_str("jpg"),
                    same_format: true,
                })
            } else if crate::scan::eq_lower(s, "jpeg") {
                Ok(TransformPlan {
                    kind: TransformKind::ReencodeJpeg,
                    target_ext: String::from_str("jpeg"),
                    same_format: true,
                })
            } else if crate::scan::is_supported_ext(s) {
                Err(TransformError::ConvertRequired)
            } else {
                Err(TransformError::UnsupportedSource)
            }
        },
    }
}

/// What the codec for `kind` produces from `content`: the output bytes, or
/// `None` for the codec's failure on that input.
pub open spec fn codec_result(content: Seq<u8>, kind: TransformKind) -> Option<Seq<u8>> {
    match kind {
        TransformKind::OptimizePng => codec::png_optimized(content, PNG_PRESET),
        TransformKind::ReencodeJpeg => codec::jpeg_reencoded(content, JPEG_QUALITY),
        TransformKind::Convert(t) => match t {
            TargetFormat::Jpg => codec::jpeg_converted(content, JPEG_QUALITY),
            TargetFormat::Webp => codec::webp_converted(content),
            TargetFormat::Png => codec::png_converted(content),
        },
    }
}

/// Runs the codec that the plan names, from bytes to bytes. Succeeds exactly
/// when that codec does on this content.
pub fn run_codec(content: &Vec<u8>, kind: &TransformKind) -> (r: Result<Vec<u8>, TransformError>)
    ensures
        (r is Ok) == (codec_result(content@, *kind) is Some),
        r matches Ok(v) ==> Some(v@) == codec_result(content@, *kind),
        r matches Err(e) ==> e is CodecFailure,
{
    let out = match kind {
        TransformKind::OptimizePng => codec::optimize_png(content, PNG_PRESET),
        TransformKind::ReencodeJpeg => codec::reencode_jpeg(content, JPEG_QUALITY),
        TransformKind::Convert(t) => match t {
            TargetFormat::Jpg => codec::convert_to_jpeg(content, JPEG_QUALITY),
            TargetFormat::Webp => codec::convert_to_webp(content),
            TargetFormat::Png => codec::convert_to_png(content),
        },
    };
    match out {
        Ok(v) => Ok(v),
        Err(m) => Err(TransformError::CodecFailure(m)),
    }
}

/// What becomes of a staged transform result.
#[derive(Debug, Clone, Copy, PartialEq, Eq, Structural)]
pub enum Disposition {
    /// Discard the staged file; the original stays as it is.
    Skip,
    /// Replace the source file in place with the staged bytes.
    ReplaceSource,
    /// Save under a collision-resolved name beside the source; the source
    /// itself is never deleted.
    SaveAlongside,
    /// The staged file itself is the result; the caller relocates it.
    KeepStaged,
}

/// The commit policy: a result no smaller than the original is discarded
/// unless a genuine format change was requested; otherwise overwrite either
/// replaces the source (same format) or saves alongside it (format change);
/// without overwrite the staged file is handed back.
pub open spec fn spec_disposition(
    original_size: u64,
    new_size: u64,
    converting: bool,
    same_format: bool,
    overwrite: bool,
) -> Disposition {
    if new_size >= original_size && (!converting || same_format) {
        Disposition::Skip
    } else if overwrite && !converting {
        Disposition::ReplaceSource
    } else if overwrite {
        Disposition::SaveAlongside
    } else {
        Disposition::KeepStaged
    }
}

pub fn decide_disposition(
    original_size: u64,
    new_size: u64,
    converting: bool,
    same_format: bool,
    overwrite: bool,
) -> (d: Disposition)
    ensures
        d == spec_disposition(original_size, new_size, converting, same_format, overwrite),
{
    if new_size >= original_size && (!converting || same_format) {
        Disposition::Skip
    } else if overwrite && !converting {
        Disposition::ReplaceSource
    } else if overwrite {
        Disposition::SaveAlongside
    } else {
        Disposition::KeepStaged
    }
}

/// Bytes saved by the transform, clamped at zero: a size increase is never
/// reported as negative savings.
pub open spec fn spec_saved_bytes(original_size: u64, new_size: u64) -> u64 {
    if original_size > new_size {
        (original_size - new_size) as u64
    } else {
        0
    }
}

pub fn saved_bytes(original_size: u64, new_size: u64) -> (r: u64)
    ensures
        r == spec_saved_bytes(original_size, new_size),
{
    if original_size > new_size {
        original_size - new_size
    } else {
        0
    }
}

/// The per-file report handed back to the caller.
#[derive(Debug, Clone)]
pub struct OptimizationResult {
    pub original_size: u64,
    pub new_size: u64,
    pub saved_bytes: u64,
    pub output_path: String,
    pub skipped: bool,
    pub duration_ms: u64,
}

impl OptimizationResult {
    /// A skipped outcome reports the original untouched; a committed one
    /// reports its savings clamped at zero.
    pub open spec fn wf(self) -> bool {
        &&& self.skipped ==> self.saved_bytes == 0 && self.new_size == self.original_size
        &&& self.saved_bytes == spec_saved_bytes(self.original_size, self.new_size)
    }
}

/// The report for a discarded (skipped) transform: the original size and
/// path are handed back and nothing was saved.
pub fn skipped_result(original_size: u64, source_path: String, duration_ms: u64) -> (r:
    OptimizationResult)
    ensures
        r.skipped,
        r.original_size == original_size,
        r.new_size == original_size,
        r.saved_bytes == 0,
        r.output_path == source_path,
        r.duration_ms == duration_ms,
        r.wf(),
{
    OptimizationResult {
        original_size,
        new_size: original_size,
        saved_bytes: 0,
        output_path: source_path,
        skipped: true,
        duration_ms,
    }
}

/// The report for a committed transform.
pub fn committed_result(
    original_size: u64,
    new_size: u64,
    output_path: String,
    duration_ms: u64,
) -> (r: OptimizationResult)
    ensures
        !r.skipped,
        r.original_size == original_size,
        r.new_size == new_size,
        r.saved_bytes == spec_saved_bytes(original_size, new_size),
        r.output_path == output_path,
        r.duration_ms == duration_ms,
        r.wf(),
{
    OptimizationResult {
        original_size,
        new_size,
        saved_bytes: saved_bytes(original_size, new_size),
        output_path,
        skipped: false,
        duration_ms,
    }
}

/// Builds the staged file's unique name: the source stem, a random token
/// free of dots and separators, and the target extension.
pub fn make_temp_name(stem: &String, target_ext: &String) -> (r: String)
    ensures
        exists|t: Seq<char>|
            t.len() == 36 && (forall|i: int| 0 <= i < 36 ==> #[trigger] t[i] != '.' && t[i] != '/')
                && r@ == stem@ + seq!['_'] + t + seq!['.'] + target_ext@,
{
    proof {
        reveal_strlit("_");
        reveal_strlit(".");
    }
    let token = codec::fresh_token();
    let mut r = stem.clone();
    r.append("_");
    r.append(token.as_str());
    r.append(".");
    r.append(target_ext.as_str());
    proof {
        assert(r@ =~= stem@ + seq!['_'] + token@ + seq!['.'] + target_ext@);
        assert forall|i: int| 0 <= i < 36 implies #[trigger] token@[i] != '.' && token@[i]
            != '/' by {
            if !codec::is_token_hyphen_pos(i) {
                assert(codec::is_lower_hex_digit(token@[i]));
            }
        }
    }
    r
}

/// A transform staged in memory, before the commit decision touches any
/// file: the produced bytes, the unique staging name, and everything the
/// commit policy reads.
#[derive(Debug)]
pub struct StagedTransform {
    pub kind: TransformKind,
    pub data: Vec<u8>,
    pub temp_name: String,
    pub original_size: u64,
    pub new_size: u64,
    pub converting: bool,
    pub same_format: bool,
    pub target_ext: String,
}

/// The whole in-memory half of one file's transform: classify the request
/// against the file's extension, run the matching codec, and name a unique
/// staging file. Sizes are the byte counts before and after. Succeeds
/// exactly when the request classifies and its codec succeeds on the
/// content.
pub fn stage_transform(file_name: &String, content: &Vec<u8>, convert_to: &Option<String>) -> (r:
    Result<StagedTransform, TransformError>)
    ensures
        (r is Ok) == (classifiable(spec_ext(file_name@), opt_view(*convert_to)) && codec_result(
            content@,
            spec_kind(spec_ext(file_name@), opt_view(*convert_to)),
        ) is Some),
        r matches Ok(s) ==> {
            &&& plan_ok(
                spec_ext(file_name@),
                opt_view(*convert_to),
                Ok(
                    (TransformPlan {
                        kind: s.kind,
                        target_ext: s.target_ext,
                        same_format: s.same_format,
                    }),
                ),
            )
            &&& s.kind == spec_kind(spec_ext(file_name@), opt_view(*convert_to))
            &&& Some(s.data@) == codec_result(content@, s.kind)
            &&& s.original_size == content@.len()
            &&& s.new_size == s.data@.len()
            &&& s.converting == (convert_to is Some)
            &&& exists|t: Seq<char>|
                t.len() == 36 && s.temp_name@ == spec_stem(file_name@) + seq!['_'] + t + seq!['.']
                    + s.target_ext@
        },
        r matches Err(e) ==> if classifiable(spec_ext(file_name@), opt_view(*convert_to)) {
            e is CodecFailure
        } else {
            plan_ok(spec_ext(file_name@), opt_view(*convert_to), Err(e))
        },
{
    let (stem, ext) = crate::names::split_name(file_name);
    let plan = match classify(&ext, convert_to) {
        Ok(p) => p,
        Err(e) => {
            return Err(e);
        },
    };
    let data = match run_codec(content, &plan.kind) {
        Ok(d) => d,
        Err(e) => {
            return Err(e);
        },
    };
    let temp_name = make_temp_name(&stem, &plan.target_ext);
    let new_size = data.len() as u64;
    Ok(StagedTransform {
        kind: plan.kind,
        data,
        temp_name,
        original_size: content.len() as u64,
        new_size,
        converting: convert_to.is_some(),
        same_format: plan.same_format,
        target_ext: plan.target_ext,
    })
}

/// Law: a transform that did not shrink the file is always discarded when no
/// genuine format change was requested, whatever the overwrite flag.
pub proof fn lemma_no_gain_skips(
    original_size: u64,
    new_size: u64,
    converting: bool,
    same_format: bool,
    overwrite: bool,
)
    requires
        new_size >= original_size,
        !converting || same_format,
    ensures
        spec_disposition(original_size, new_size, converting, same_format, overwrite)
            == Disposition::Skip,
{
}

/// Law: a same-format optimize that shrank the file, with overwrite
/// requested, replaces the source file in place.
pub proof fn lemma_smaller_overwrite_replaces(original_size: u64, new_size: u64, same_format: bool)
    requires
        new_size < original_size,
    ensures
        spec_disposition(original_size, new_size, false, same_format, true)
            == Disposition::ReplaceSource,
{
}

/// Law: a genuine format change is never judged by size and never replaces
/// the source file: whatever the sizes, overwrite saves alongside the source
/// and no overwrite keeps the staged file.
pub proof fn lemma_conversion_never_replaces(
    original_size: u64,
    new_size: u64,
    overwrite: bool,
)
    ensures
        spec_disposition(original_size, new_size, true, false, overwrite) != Disposition::ReplaceSource,
        spec_disposition(original_size, new_size, true, false, overwrite) == if overwrite {
            Disposition::SaveAlongside
        } else {
            Disposition::KeepStaged
        },
{
}

} // verus!
