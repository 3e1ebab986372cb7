//! What the server does for an admitted job: the random name of the
//! uploaded file, the files it expects back, the external commands it runs,
//! and the answer it sends.

use vstd::prelude::*;
use crate::error::{AppError, Failure, answers};
use crate::kinds::{Kind, classify_spec, is_audio_source, is_document_source};
use crate::request::Job;
use crate::text::{join2, join3, push_char, text_eq};

verus! {

/// A lower-case hexadecimal digit.
pub open spec fn is_lower_hex(c: char) -> bool {
    ('0' <= c && c <= '9') || ('a' <= c && c <= 'f')
}

/// A version-4 UUID in hyphenated lower-case form, as in
/// `67e55044-10b1-426f-9247-bb680e5fe0c8`.
pub open spec fn is_request_id(s: Seq<char>) -> bool {
    &&& s.len() == 36
    &&& forall|i: int|
        0 <= i < 36 ==> if i == 8 || i == 13 || i == 18 || i == 23 {
            #[trigger] s[i] == '-'
        } else {
            is_lower_hex(s[i])
        }
    &&& s[14] == '4'
    &&& (s[19] == '8' || s[19] == '9' || s[19] == 'a' || s[19] == 'b')
}

/// Trusted: `Uuid::new_v4()` shown by `to_string()`, which writes the
/// hyphenated lower-case form; version 4 puts `4` at position 14 and the RFC
/// variant one of `8`, `9`, `a`, `b` at position 19. The digits are random.
#[verifier::external_body]
fn new_request_id() -> (r: String)
    ensures
        is_request_id(r@),
{
    uuid::Uuid::new_v4().to_string()
}

/// `id.ext`: the name under which the upload is stored.
pub open spec fn input_name_spec(id: Seq<char>, ext: Seq<char>) -> Seq<char> {
    id + "."@ + ext
}

/// The file name `id.ext`.
pub fn file_name(id: &str, ext: &str) -> (r: String)
    ensures
        r@ == input_name_spec(id@, ext@),
{
    join3(id, ".", ext)
}

/// The external work that a job needs, with the names (inside the job's
/// temporary directory) of the files involved.
#[derive(Debug)]
pub enum Step {
    /// Run FFmpeg; it writes `output_name`.
    Audio { output_name: String },
    /// Run LibreOffice with its profile in `profile_dir`; it writes `output_name`.
    Document { profile_dir: String, output_name: String },
    /// Run pdftoppm with `flag`; it writes `prefix-N.ext` for each page.
    PdfPages { flag: String, ext: String, prefix: String },
    /// Resize the upload into app icons, in memory.
    Icons,
}

/// The job's random id, the name of its upload, and its step.
#[derive(Debug)]
pub struct Plan {
    pub id: String,
    pub input_name: String,
    pub step: Step,
}

/// The pdftoppm flag and file extension for a target image format.
pub open spec fn image_flag_spec(to: Seq<char>) -> Option<(Seq<char>, Seq<char>)> {
    if to == "jpg"@ || to == "jpeg"@ {
        Some(("-jpeg"@, "jpg"@))
    } else if to == "png"@ {
        Some(("-png"@, "png"@))
    } else {
        None
    }
}

/// The pdftoppm flag and extension for `to`: `jpg` and `jpeg` give JPEG,
/// `png` gives PNG, anything else is refused.
pub fn image_flag(to: &str) -> (r: Result<(String, String), AppError>)
    ensures
        match image_flag_spec(to@) {
            Some(p) => r matches Ok(q) && q.0@ == p.0 && q.1@ == p.1,
            None => r matches Err(e) && answers(e, Failure::InvalidImageFormat),
        },
{
    if text_eq(to, "jpg") || text_eq(to, "jpeg") {
        Ok((String::from_str("-jpeg"), String::from_str("jpg")))
    } else if text_eq(to, "png") {
        Ok((String::from_str("-png"), String::from_str("png")))
    } else {
        Err(Failure::InvalidImageFormat.into_app_error())
    }
}

/// Whether `p` is the plan for a job of `kind` from `from` to `to` whose id is `id`.
pub open spec fn plans(p: Plan, kind: Kind, from: Seq<char>, to: Seq<char>, id: Seq<char>) -> bool {
    &&& p.id@ == id
    &&& p.input_name@ == input_name_spec(id, from)
    &&& match kind {
        Kind::AudioToMp3 => p.step matches Step::Audio { output_name } && output_name@
            == input_name_spec(id, "mp3"@),
        Kind::DocToPdf => p.step matches Step::Document { profile_dir, output_name }
            && profile_dir@ == "loprofile"@ && output_name@ == input_name_spec(id, "pdf"@),
        Kind::PdfToImage => p.step matches Step::PdfPages { flag, ext, prefix }
            && image_flag_spec(to) == Some((flag@, ext@)) && prefix@ == id,
        Kind::ImageToIcon => p.step is Icons,
    }
}

/// The plan for a job of `kind` from `from` to `to` under the id `id`. Only
/// a PDF job whose target is not an image format is refused.
pub fn plan_with_id(kind: Kind, from: &str, to: &str, id: String) -> (r: Result<Plan, AppError>)
    ensures
        kind == Kind::PdfToImage && image_flag_spec(to@) is None ==> (r matches Err(e) && answers(
            e,
            Failure::InvalidImageFormat,
        )),
        !(kind == Kind::PdfToImage && image_flag_spec(to@) is None) ==> (r matches Ok(p)
            && plans(p, kind, from@, to@, id@)),
{
    let input_name = file_name(id.as_str(), from);
    let step = match kind {
        Kind::AudioToMp3 => Step::Audio { output_name: file_name(id.as_str(), "mp3") },
        Kind::DocToPdf => Step::Document {
            profile_dir: String::from_str("loprofile"),
            output_name: file_name(id.as_str(), "pdf"),
        },
        Kind::PdfToImage => {
            let (flag, ext) = image_flag(to)?;
            let prefix = id.clone();
            Step::PdfPages { flag, ext, prefix }
        },
        Kind::ImageToIcon => Step::Icons,
    };
    Ok(Plan { id, input_name, step })
}

/// The plan for an admitted job, under a fresh random id.
pub fn plan_job(job: &Job) -> (r: Result<Plan, AppError>)
    requires
        job.wf(),
    ensures
        r matches Ok(p) && is_request_id(p.id@) && plans(p, job.kind, job.from@, job.to@, p.id@),
{
    let id = new_request_id();
    plan_with_id(job.kind, job.from.as_str(), job.to.as_str(), id)
}

/// A character of a safe file name: lower-case ASCII letter, digit, `-` or `.`.
pub open spec fn is_plain_name_char(c: char) -> bool {
    ('a' <= c && c <= 'z') || ('0' <= c && c <= '9') || c == '-' || c == '.'
}

/// The upload of an admitted job is stored under its random id: the name
/// holds only lower-case letters, digits, `-` and `.` (so no path separator),
/// and it starts with the id, not with a dot.
pub proof fn lemma_input_name_is_plain(id: Seq<char>, from: Seq<char>, to: Seq<char>)
    requires
        is_request_id(id),
        classify_spec(from, to) is Some,
    ensures
        forall|i: int|
            0 <= i < input_name_spec(id, from).len() ==> is_plain_name_char(
                #[trigger] input_name_spec(id, from)[i],
            ),
        id.is_prefix_of(input_name_spec(id, from)),
        input_name_spec(id, from)[0] != '.',
{
    reveal_strlit(".");
    reveal_strlit("wav");
    reveal_strlit("flac");
    reveal_strlit("m4a");
    reveal_strlit("mp4");
    reveal_strlit("mov");
    reveal_strlit("mkv");
    reveal_strlit("docx");
    reveal_strlit("xlsx");
    reveal_strlit("pptx");
    reveal_strlit("pdf");
    reveal_strlit("png");
    reveal_strlit("jpg");
    reveal_strlit("jpeg");
    let name = input_name_spec(id, from);
    assert forall|i: int| 0 <= i < name.len() implies is_plain_name_char(#[trigger] name[i]) by {
        if i < 36 {
            assert(name[i] == id[i]);
        } else if i == 36 {
            assert(name[i] == '.');
        } else {
            assert(name[i] == from[i - 37]);
        }
    }
    assert(name.subrange(0, 36) =~= id);
}

/// A file name made only of lower-case ASCII letters, digits, `-` and `.`.
pub open spec fn is_plain_name(s: Seq<char>) -> bool {
    forall|i: int| 0 <= i < s.len() ==> is_plain_name_char(#[trigger] s[i])
}

proof fn lemma_id_dot_plain(id: Seq<char>, ext: Seq<char>)
    requires
        is_request_id(id),
        is_plain_name(ext),
    ensures
        is_plain_name(input_name_spec(id, ext)),
{
    reveal_strlit(".");
    let name = input_name_spec(id, ext);
    assert forall|i: int| 0 <= i < name.len() implies is_plain_name_char(#[trigger] name[i]) by {
        if i < 36 {
            assert(name[i] == id[i]);
        } else if i == 36 {
            assert(name[i] == '.');
        } else {
            assert(name[i] == ext[i - 37]);
        }
    }
}

/// Every file that the plan of an admitted job names in its directory (the
/// upload, the result, the LibreOffice profile, the page prefix) has a plain
/// name: the random id and fixed words, and at most the whitelisted source
/// extension. With `step_command`, no other text of the request reaches a
/// command line.
pub proof fn lemma_plan_names_are_plain(p: Plan, kind: Kind, from: Seq<char>, to: Seq<char>, id: Seq<char>)
    requires
        is_request_id(id),
        classify_spec(from, to) == Some(kind),
        plans(p, kind, from, to, id),
    ensures
        is_plain_name(p.input_name@),
        p.step matches Step::Audio { output_name } ==> is_plain_name(output_name@),
        p.step matches Step::Document { profile_dir, output_name } ==> is_plain_name(profile_dir@)
            && is_plain_name(output_name@),
        p.step matches Step::PdfPages { flag, ext, prefix } ==> is_plain_name(prefix@),
{
    reveal_strlit("wav");
    reveal_strlit("flac");
    reveal_strlit("m4a");
    reveal_strlit("mp4");
    reveal_strlit("mov");
    reveal_strlit("mkv");
    reveal_strlit("docx");
    reveal_strlit("xlsx");
    reveal_strlit("pptx");
    reveal_strlit("pdf");
    reveal_strlit("png");
    reveal_strlit("jpg");
    reveal_strlit("jpeg");
    reveal_strlit("mp3");
    reveal_strlit("loprofile");
    assert(is_plain_name(from));
    lemma_id_dot_plain(id, from);
    lemma_id_dot_plain(id, "mp3"@);
    lemma_id_dot_plain(id, "pdf"@);
    assert(is_plain_name(id));
    assert(is_plain_name("loprofile"@));
}

/// Nothing that the client sent reaches a plan except through the whitelist:
/// the upload's extension is a whitelisted source format, and the pdftoppm
/// flag and page extension are one of two fixed pairs.
pub proof fn lemma_plan_is_whitelisted(p: Plan, kind: Kind, from: Seq<char>, to: Seq<char>, id: Seq<char>)
    requires
        classify_spec(from, to) == Some(kind),
        plans(p, kind, from, to, id),
    ensures
        is_audio_source(from) || is_document_source(from) || from == "pdf"@ || from == "png"@
            || from == "jpg"@ || from == "jpeg"@,
        p.step matches Step::PdfPages { flag, ext, prefix } ==> ((flag@ == "-jpeg"@ && ext@
            == "jpg"@) || (flag@ == "-png"@ && ext@ == "png"@)) && prefix@ == id,
{
}

/// An external program and its arguments.
#[derive(Debug)]
pub struct Command {
    pub program: String,
    pub args: Vec<String>,
}

/// The texts of a list of strings.
pub open spec fn arg_texts(v: Seq<String>) -> Seq<Seq<char>> {
    v.map_values(|s: String| s@)
}

/// Whether `c` runs `program` with exactly `args`.
pub open spec fn runs(c: Command, program: Seq<char>, args: Seq<Seq<char>>) -> bool {
    c.program@ == program && arg_texts(c.args@) == args
}

fn strings(v: Vec<&str>) -> (r: Vec<String>)
    ensures
        arg_texts(r@) == v@.map_values(|s: &str| s@),
{
    let mut out: Vec<String> = Vec::new();
    let mut i: usize = 0;
    while i < v.len()
        invariant
            i <= v.len(),
            arg_texts(out@) =~= v@.subrange(0, i as int).map_values(|s: &str| s@),
        decreases v.len() - i,
    {
        let ghost before = out@;
        out.push(String::from_str(v[i]));
        assert(arg_texts(out@) =~= arg_texts(before).push(v@[i as int]@));
        assert(v@.subrange(0, i + 1) =~= v@.subrange(0, i as int).push(v@[i as int]));
        i = i + 1;
    }
    assert(v@.subrange(0, v.len() as int) =~= v@);
    out
}

/// `ffmpeg -y -i <input> -vn -acodec libmp3lame -b:a 192k <output>`.
pub fn audio_command(input: &str, output: &str) -> (r: Command)
    ensures
        runs(
            r,
            "ffmpeg"@,
            seq![
                "-y"@,
                "-i"@,
                input@,
                "-vn"@,
                "-acodec"@,
                "libmp3lame"@,
                "-b:a"@,
                "192k"@,
                output@,
            ],
        ),
{
    let v = vec!["-y", "-i", input, "-vn", "-acodec", "libmp3lame", "-b:a", "192k", output];
    let args = strings(v);
    assert(v@.map_values(|s: &str| s@) =~= seq![
        "-y"@,
        "-i"@,
        input@,
        "-vn"@,
        "-acodec"@,
        "libmp3lame"@,
        "-b:a"@,
        "192k"@,
        output@,
    ]);
    Command { program: String::from_str("ffmpeg"), args }
}

/// `soffice <profile> --headless --convert-to pdf --outdir <outdir> <input>`.
pub fn document_command(profile_arg: &str, outdir: &str, input: &str) -> (r: Command)
    ensures
        runs(
            r,
            "soffice"@,
            seq![profile_arg@, "--headless"@, "--convert-to"@, "pdf"@, "--outdir"@, outdir@, input@],
        ),
{
    let v = vec![profile_arg, "--headless", "--convert-to", "pdf", "--outdir", outdir, input];
    let args = strings(v);
    assert(v@.map_values(|s: &str| s@) =~= seq![
        profile_arg@,
        "--headless"@,
        "--convert-to"@,
        "pdf"@,
        "--outdir"@,
        outdir@,
        input@,
    ]);
    Command { program: String::from_str("soffice"), args }
}

/// `pdftoppm <flag> -r 150 <input> <prefix>`.
pub fn pages_command(flag: &str, input: &str, prefix: &str) -> (r: Command)
    ensures
        runs(r, "pdftoppm"@, seq![flag@, "-r"@, "150"@, input@, prefix@]),
{
    let v = vec![flag, "-r", "150", input, prefix];
    let args = strings(v);
    assert(v@.map_values(|s: &str| s@) =~= seq![flag@, "-r"@, "150"@, input@, prefix@]);
    Command { program: String::from_str("pdftoppm"), args }
}

/// A path with every backslash turned into a slash.
pub open spec fn slashed(p: Seq<char>) -> Seq<char> {
    p.map_values(|c: char| if c == '\\' { '/' } else { c })
}

/// The LibreOffice option that points its user profile at `p`, as a
/// `file://` URI for both Unix (`/tmp/x`) and Windows (`C:\x`) paths.
pub open spec fn profile_arg_spec(p: Seq<char>) -> Seq<char> {
    let s = slashed(p);
    if s.len() > 0 && s[0] == '/' {
        "-env:UserInstallation=file://"@ + s
    } else {
        "-env:UserInstallation=file:///"@ + s
    }
}

/// The LibreOffice user-profile option for the profile directory `profile_path`.
pub fn libreoffice_profile_arg(profile_path: &str) -> (r: String)
    ensures
        r@ == profile_arg_spec(profile_path@),
{
    let n = profile_path.unicode_len();
    let mut s = String::new();
    let mut i: usize = 0;
    while i < n
        invariant
            n == profile_path@.len(),
            i <= n,
            s@ =~= slashed(profile_path@.subrange(0, i as int)),
        decreases n - i,
    {
        let c = profile_path.get_char(i);
        if c == '\\' {
            push_char(&mut s, '/');
        } else {
            push_char(&mut s, c);
        }
        i = i + 1;
    }
    assert(profile_path@.subrange(0, n as int) =~= profile_path@);
    let leading_slash = n > 0 && s.as_str().get_char(0) == '/';
    if leading_slash {
        join2("-env:UserInstallation=file://", s.as_str())
    } else {
        join2("-env:UserInstallation=file:///", s.as_str())
    }
}

/// Whatever the profile path, the option names a `file:///` URI and holds no backslash.
pub proof fn lemma_profile_arg_shape(p: Seq<char>)
    ensures
        "-env:UserInstallation=file:///"@.is_prefix_of(profile_arg_spec(p)),
        !profile_arg_spec(p).contains('\\'),
{
    reveal_strlit("-env:UserInstallation=file://");
    reveal_strlit("-env:UserInstallation=file:///");
    let s = slashed(p);
    let r = profile_arg_spec(p);
    if s.len() > 0 && s[0] == '/' {
        assert(r[29] == s[0]);
    }
    assert("-env:UserInstallation=file:///"@ =~= r.subrange(0, 30));
    if r.contains('\\') {
        let k = choose|k: int| 0 <= k < r.len() && r[k] == '\\';
        if s.len() > 0 && s[0] == '/' {
            assert(r[k] == s[k - 29]);
        } else {
            assert(r[k] == s[k - 30]);
        }
    }
}

/// Whether `arg` is a LibreOffice profile option whose `file:` URI names the
/// directory `p`: it begins with `-env:UserInstallation=file:///`, holds no
/// backslash, and after `-env:UserInstallation=file://` comes the path `p`
/// with each backslash written as a slash, behind a `/` of its own unless
/// `p` already begins with a separator.
pub open spec fn names_profile_uri(arg: Seq<char>, p: Seq<char>) -> bool {
    let uri_path = arg.subrange("-env:UserInstallation=file://"@.len() as int, arg.len() as int);
    let extra: int = if p.len() > 0 && (p[0] == '/' || p[0] == '\\') { 0 } else { 1 };
    &&& "-env:UserInstallation=file:///"@.is_prefix_of(arg)
    &&& !arg.contains('\\')
    &&& uri_path.len() == p.len() + extra
    &&& forall|i: int|
        0 <= i < p.len() ==> uri_path[extra + i] == if #[trigger] p[i] == '\\' {
            '/'
        } else {
            p[i]
        }
}

/// For every profile directory, the option made of it names it as a `file:` URI.
pub proof fn lemma_profile_arg_names_uri(p: Seq<char>)
    ensures
        names_profile_uri(profile_arg_spec(p), p),
{
    reveal_strlit("-env:UserInstallation=file://");
    reveal_strlit("-env:UserInstallation=file:///");
    lemma_profile_arg_shape(p);
    let s = slashed(p);
    let r = profile_arg_spec(p);
    let u = r.subrange(29, r.len() as int);
    if s.len() > 0 && s[0] == '/' {
        assert(u =~= s);
    } else {
        assert(u =~= seq!['/'] + s);
    }
}

/// The path of the file `name` inside the directory `dir`, where `sep` is
/// the platform's path separator: a separator is put between them unless
/// `dir` is empty or already ends with one (`/` counts as one everywhere).
pub open spec fn joined(dir: Seq<char>, name: Seq<char>, sep: char) -> Seq<char> {
    if dir.len() == 0 || dir.last() == '/' || dir.last() == sep {
        dir + name
    } else {
        dir.push(sep) + name
    }
}

/// The path of the file `name` inside the directory `dir`.
pub fn join_path(dir: &str, name: &str, sep: char) -> (r: String)
    ensures
        r@ == joined(dir@, name@, sep),
{
    let n = dir.unicode_len();
    if n == 0 {
        return String::from_str(name);
    }
    let last = dir.get_char(n - 1);
    if last == '/' || last == sep {
        join2(dir, name)
    } else {
        let mut s = String::from_str(dir);
        push_char(&mut s, sep);
        assert(s@ == dir@.push(sep));
        s.concat(name)
    }
}

/// The argument text of the file `name` in the job directory: its path when
/// the directory's path is valid UTF-8 (`dir` is `Some`), and the empty
/// string otherwise, as `path` gives for a path that is not valid UTF-8.
pub open spec fn file_arg(dir: Option<Seq<char>>, name: Seq<char>, sep: char) -> Seq<char> {
    match dir {
        Some(d) => joined(d, name, sep),
        None => Seq::empty(),
    }
}

/// The program and arguments that carry out `plan`'s step in the job
/// directory, or `None` for a step done in memory. `dir` is the directory's
/// text when it is valid UTF-8 and `lossy_dir` its lossy text (the two agree
/// when `dir` is `Some`); the LibreOffice profile is named by lossy text.
pub open spec fn step_command(plan: Plan, dir: Option<Seq<char>>, lossy_dir: Seq<char>, sep: char) -> Option<
    (Seq<char>, Seq<Seq<char>>),
> {
    let input = file_arg(dir, plan.input_name@, sep);
    match plan.step {
        Step::Audio { output_name } => Some(
            (
                "ffmpeg"@,
                seq![
                    "-y"@,
                    "-i"@,
                    input,
                    "-vn"@,
                    "-acodec"@,
                    "libmp3lame"@,
                    "-b:a"@,
                    "192k"@,
                    file_arg(dir, output_name@, sep),
                ],
            ),
        ),
        Step::Document { profile_dir, output_name } => Some(
            (
                "soffice"@,
                seq![
                    profile_arg_spec(joined(lossy_dir, profile_dir@, sep)),
                    "--headless"@,
                    "--convert-to"@,
                    "pdf"@,
                    "--outdir"@,
                    match dir {
                        Some(d) => d,
                        None => Seq::empty(),
                    },
                    input,
                ],
            ),
        ),
        Step::PdfPages { flag, ext, prefix } => Some(
            ("pdftoppm"@, seq![flag@, "-r"@, "150"@, input, file_arg(dir, prefix@, sep)]),
        ),
        Step::Icons => None,
    }
}

fn file_arg_of(dir: Option<&str>, name: &str, sep: char) -> (r: String)
    ensures
        r@ == file_arg(dir_text(dir), name@, sep),
{
    match dir {
        Some(d) => join_path(d, name, sep),
        None => String::new(),
    }
}

/// The text of an optional directory path.
pub open spec fn dir_text(dir: Option<&str>) -> Option<Seq<char>> {
    match dir {
        Some(d) => Some(d@),
        None => None,
    }
}

/// The external command for `plan` in its job directory (with the
/// platform's separator `sep`): every argument is a fixed word, the
/// directory, or a path in it of one of the plan's files.
pub fn job_command(plan: &Plan, dir: Option<&str>, lossy_dir: &str, sep: char) -> (r: Option<Command>)
    ensures
        match step_command(*plan, dir_text(dir), lossy_dir@, sep) {
            Some((program, args)) => r matches Some(c) && runs(c, program, args),
            None => r is None,
        },
        plan.step matches Step::Audio { output_name } ==> r matches Some(c) && c.program@
            == "ffmpeg"@ && arg_texts(c.args@) == seq![
            "-y"@,
            "-i"@,
            file_arg(dir_text(dir), plan.input_name@, sep),
            "-vn"@,
            "-acodec"@,
            "libmp3lame"@,
            "-b:a"@,
            "192k"@,
            file_arg(dir_text(dir), output_name@, sep),
        ],
        plan.step matches Step::Document { profile_dir, output_name } ==> r matches Some(c)
            && c.program@ == "soffice"@ && c.args@.len() == 7 && names_profile_uri(
            c.args@[0]@,
            joined(lossy_dir@, profile_dir@, sep),
        ) && arg_texts(c.args@).subrange(1, 7) == seq![
            "--headless"@,
            "--convert-to"@,
            "pdf"@,
            "--outdir"@,
            match dir {
                Some(d) => d@,
                None => Seq::<char>::empty(),
            },
            file_arg(dir_text(dir), plan.input_name@, sep),
        ],
        plan.step matches Step::PdfPages { flag, ext, prefix } ==> r matches Some(c) && c.program@
            == "pdftoppm"@ && arg_texts(c.args@) == seq![
            flag@,
            "-r"@,
            "150"@,
            file_arg(dir_text(dir), plan.input_name@, sep),
            file_arg(dir_text(dir), prefix@, sep),
        ],
        plan.step is Icons ==> r is None,
{
    let input = file_arg_of(dir, plan.input_name.as_str(), sep);
    match &plan.step {
        Step::Audio { output_name } => {
            let output = file_arg_of(dir, output_name.as_str(), sep);
            Some(audio_command(input.as_str(), output.as_str()))
        },
        Step::Document { profile_dir, output_name } => {
            let profile = join_path(lossy_dir, profile_dir.as_str(), sep);
            let profile_arg = libreoffice_profile_arg(profile.as_str());
            let outdir = match dir {
                Some(d) => String::from_str(d),
                None => String::new(),
            };
            assert(outdir@ == match dir_text(dir) {
                Some(d) => d,
                None => Seq::<char>::empty(),
            });
            let c = document_command(profile_arg.as_str(), outdir.as_str(), input.as_str());
            let ghost sc = step_command(*plan, dir_text(dir), lossy_dir@, sep)->0;
            assert(arg_texts(c.args@) =~= sc.1);
            proof {
                lemma_profile_arg_names_uri(profile@);
                assert(c.args@[0]@ == arg_texts(c.args@)[0]);
                assert(arg_texts(c.args@).subrange(1, 7) =~= sc.1.subrange(1, 7));
            }
            Some(c)
        },
        Step::PdfPages { flag, ext, prefix } => {
            let prefix_path = file_arg_of(dir, prefix.as_str(), sep);
            Some(pages_command(flag.as_str(), input.as_str(), prefix_path.as_str()))
        },
        Step::Icons => None,
    }
}

/// The answer to a successful conversion.
#[derive(Debug)]
pub struct Output {
    pub bytes: Vec<u8>,
    pub filename: String,
    pub content_type: String,
}

/// The download name of each kind's result.
pub open spec fn output_filename(kind: Kind) -> Seq<char> {
    match kind {
        Kind::AudioToMp3 => "converted.mp3"@,
        Kind::DocToPdf => "converted.pdf"@,
        Kind::PdfToImage => "converted-images.zip"@,
        Kind::ImageToIcon => "app-icons.zip"@,
    }
}

/// The media type of each kind's result.
pub open spec fn output_content_type(kind: Kind) -> Seq<char> {
    match kind {
        Kind::AudioToMp3 => "audio/mpeg"@,
        Kind::DocToPdf => "application/pdf"@,
        Kind::PdfToImage => "application/zip"@,
        Kind::ImageToIcon => "application/zip"@,
    }
}

/// The answer that carries `bytes`, the result of a job of `kind`.
pub fn output_for(kind: Kind, bytes: Vec<u8>) -> (r: Output)
    ensures
        r.bytes == bytes,
        r.filename@ == output_filename(kind),
        r.content_type@ == output_content_type(kind),
{
    match kind {
        Kind::AudioToMp3 => Output {
            bytes,
            filename: String::from_str("converted.mp3"),
            content_type: String::from_str("audio/mpeg"),
        },
        Kind::DocToPdf => Output {
            bytes,
            filename: String::from_str("converted.pdf"),
            content_type: String::from_str("application/pdf"),
        },
        Kind::PdfToImage => Output {
            bytes,
            filename: String::from_str("converted-images.zip"),
            content_type: String::from_str("application/zip"),
        },
        Kind::ImageToIcon => Output {
            bytes,
            filename: String::from_str("app-icons.zip"),
            content_type: String::from_str("application/zip"),
        },
    }
}

/// The `Content-Disposition` header value that offers `filename` as a download.
pub fn content_disposition(filename: &str) -> (r: String)
    ensures
        r@ == "attachment; filename=\""@ + filename@ + "\""@,
{
    join3("attachment; filename=\"", filename, "\"")
}

/// The outcome of running `program`: its failure is a server error.
pub fn command_outcome(program: &str, success: bool) -> (r: Result<(), AppError>)
    ensures
        success ==> r is Ok,
        !success ==> (r matches Err(e) && e.status == crate::error::INTERNAL_SERVER_ERROR
            && e.message@ == "Chuyển đổi thất bại ("@ + program@ + ")"@),
{
    if success {
        Ok(())
    } else {
        let p = String::from_str(program);
        let e = Failure::CommandFailed(p).into_app_error();
        Err(e)
    }
}

} // verus!
