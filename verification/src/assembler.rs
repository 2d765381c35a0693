use crate::downloader_error::DownloaderError;
use crate::text::{chars_of, string_of};
use vstd::prelude::*;

verus! {

/// The character of a decimal digit.
pub open spec fn digit(d: nat) -> char {
    if d == 0 {
        '0'
    } else if d == 1 {
        '1'
    } else if d == 2 {
        '2'
    } else if d == 3 {
        '3'
    } else if d == 4 {
        '4'
    } else if d == 5 {
        '5'
    } else if d == 6 {
        '6'
    } else if d == 7 {
        '7'
    } else if d == 8 {
        '8'
    } else {
        '9'
    }
}

/// `n` in decimal, without leading zeros.
pub open spec fn decimal(n: nat) -> Seq<char>
    decreases n,
{
    if n < 10 {
        seq![digit(n)]
    } else {
        decimal(n / 10).push(digit(n % 10))
    }
}

/// The name of the finished file: the video track's name, an underscore, the
/// tier's label, and the container's extension.
pub open spec fn output_name(video_name: Seq<char>, resolution: Seq<char>) -> Seq<char> {
    video_name + "_"@ + resolution + ".mp4"@
}

/// Which of the two tracks of a tier.
#[derive(Debug, Clone, Copy, PartialEq, Eq, Structural)]
pub enum TrackKind {
    Video,
    Audio,
}

/// What stands for the kind of a track in the name of its temporary file.
pub open spec fn kind_tag(kind: TrackKind) -> Seq<char> {
    match kind {
        TrackKind::Video => "_video_"@,
        TrackKind::Audio => "_audio_"@,
    }
}

/// The name of the temporary file of a track: the number of the download
/// task in decimal, the tag of the track's kind, the track's name, and an
/// extension that no finished file has.
pub open spec fn temp_name(task: u64, kind: TrackKind, track_name: Seq<char>) -> Seq<char> {
    decimal(task as nat) + kind_tag(kind) + track_name + ".part"@
}

/// What the muxer is started with: overwrite, the two inputs, copy the
/// streams as they are, and the output.
pub open spec fn mux_arguments(
    video_path: Seq<char>,
    audio_path: Seq<char>,
    output_path: Seq<char>,
) -> Seq<Seq<char>> {
    seq!["-y"@, "-i"@, video_path, "-i"@, audio_path, "-c"@, "copy"@, output_path]
}

/// Appends the characters of `more` to `text`.
pub fn append(text: &mut Vec<char>, more: &Vec<char>)
    ensures
        final(text)@ == old(text)@ + more@,
{
    let mut i: usize = 0;
    assert(text@ =~= old(text)@ + more@.take(0));
    while i < more.len()
        invariant
            i <= more.len(),
            text@ == old(text)@ + more@.take(i as int),
        decreases more.len() - i,
    {
        text.push(more[i]);
        assert(old(text)@ + more@.take(i as int + 1) =~= (old(text)@ + more@.take(i as int)).push(
            more@[i as int],
        ));
        i += 1;
    }
    assert(more@.take(more.len() as int) == more@);
}

/// The character of the decimal digit `d`.
pub fn digit_of(d: u64) -> (c: char)
    requires
        d < 10,
    ensures
        c == digit(d as nat),
{
    if d == 0 {
        '0'
    } else if d == 1 {
        '1'
    } else if d == 2 {
        '2'
    } else if d == 3 {
        '3'
    } else if d == 4 {
        '4'
    } else if d == 5 {
        '5'
    } else if d == 6 {
        '6'
    } else if d == 7 {
        '7'
    } else if d == 8 {
        '8'
    } else {
        '9'
    }
}

/// `n` in decimal.
pub fn decimal_of(n: u64) -> (digits: Vec<char>)
    ensures
        digits@ == decimal(n as nat),
    decreases n,
{
    if n < 10 {
        let mut digits: Vec<char> = Vec::new();
        digits.push(digit_of(n));
        assert(digits@ =~= seq![digit(n as nat)]);
        digits
    } else {
        let mut digits = decimal_of(n / 10);
        digits.push(digit_of(n % 10));
        digits
    }
}

/// The name of the finished file.
pub fn output_name_of(video_name: &str, resolution: &str) -> (name: String)
    ensures
        name@ == output_name(video_name@, resolution@),
{
    let mut name = chars_of(video_name);
    append(&mut name, &chars_of("_"));
    append(&mut name, &chars_of(resolution));
    append(&mut name, &chars_of(".mp4"));
    string_of(&name)
}

/// The name of the temporary file of the track of kind `kind` of download
/// task `task`.
pub fn temp_name_of(task: u64, kind: TrackKind, track_name: &str) -> (name: String)
    ensures
        name@ == temp_name(task, kind, track_name@),
{
    let mut name = decimal_of(task);
    match kind {
        TrackKind::Video => append(&mut name, &chars_of("_video_")),
        TrackKind::Audio => append(&mut name, &chars_of("_audio_")),
    }
    append(&mut name, &chars_of(track_name));
    append(&mut name, &chars_of(".part"));
    string_of(&name)
}

/// The three files of one assembly: the temporary files of the two tracks,
/// and the finished file.
pub struct AssemblyPaths {
    pub video: String,
    pub audio: String,
    pub output: String,
}

impl AssemblyPaths {
    /// The files of the assembly of download task `task`. No two of them are
    /// the same file, whatever the tracks are called.
    pub fn new(task: u64, video_name: &str, audio_name: &str, resolution: &str) -> (paths: Self)
        ensures
            paths.video@ == temp_name(task, TrackKind::Video, video_name@),
            paths.audio@ == temp_name(task, TrackKind::Audio, audio_name@),
            paths.output@ == output_name(video_name@, resolution@),
            paths.video@ != paths.audio@,
            paths.video@ != paths.output@,
            paths.audio@ != paths.output@,
    {
        proof {
            lemma_paths_differ(task, video_name@, audio_name@, resolution@);
        }
        AssemblyPaths {
            video: temp_name_of(task, TrackKind::Video, video_name),
            audio: temp_name_of(task, TrackKind::Audio, audio_name),
            output: output_name_of(video_name, resolution),
        }
    }

    /// The arguments that the muxer is started with for these files.
    pub fn mux_arguments(&self) -> (arguments: Vec<String>)
        ensures
            crate::text::string_views(arguments@) == mux_arguments(
                self.video@,
                self.audio@,
                self.output@,
            ),
    {
        mux_arguments_of(self.video.as_str(), self.audio.as_str(), self.output.as_str())
    }
}

/// The arguments that the muxer is started with.
pub fn mux_arguments_of(video_path: &str, audio_path: &str, output_path: &str) -> (arguments: Vec<
    String,
>)
    ensures
        crate::text::string_views(arguments@) == mux_arguments(
            video_path@,
            audio_path@,
            output_path@,
        ),
{
    let mut arguments: Vec<String> = Vec::new();
    arguments.push("-y".to_owned());
    arguments.push("-i".to_owned());
    arguments.push(video_path.to_owned());
    arguments.push("-i".to_owned());
    arguments.push(audio_path.to_owned());
    arguments.push("-c".to_owned());
    arguments.push("copy".to_owned());
    arguments.push(output_path.to_owned());
    assert(crate::text::string_views(arguments@) =~= mux_arguments(
        video_path@,
        audio_path@,
        output_path@,
    ));
    arguments
}

/// What the assembler does next.
#[derive(Debug, Clone, Copy, PartialEq, Eq, Structural)]
pub enum AssemblyStep {
    /// Write the video track to its temporary file.
    WriteVideo,
    /// Write the audio track to its temporary file.
    WriteAudio,
    /// Run the muxer on the two temporary files.
    Mux,
    /// Remove the temporary file of the video track.
    RemoveVideo,
    /// Remove the temporary file of the audio track.
    RemoveAudio,
    /// Nothing: the assembly has ended.
    Done,
}

/// How far an assembly has come, and the first failure it met.
#[derive(Debug, Clone, Copy, PartialEq, Eq, Structural)]
pub struct Assembly {
    pub step: AssemblyStep,
    pub failure: Option<DownloaderError>,
}

/// An assembly before its first step.
pub open spec fn initial() -> Assembly {
    Assembly { step: AssemblyStep::WriteVideo, failure: None }
}

/// `failure`, or `kind` where nothing had failed before.
pub open spec fn first_failure(failure: Option<DownloaderError>, kind: DownloaderError) -> Option<
    DownloaderError,
> {
    match failure {
        Some(_) => failure,
        None => Some(kind),
    }
}

/// The state that follows `state` once its step has been performed.
/// A write that fails skips to the removals, and so does the muxer, failed or
/// not; a removal is followed by the next removal whatever came of it. The
/// first failure is the one that is kept.
pub open spec fn after(state: Assembly, succeeded: bool) -> Assembly {
    match state.step {
        AssemblyStep::WriteVideo => if succeeded {
            Assembly { step: AssemblyStep::WriteAudio, failure: state.failure }
        } else {
            Assembly {
                step: AssemblyStep::RemoveVideo,
                failure: first_failure(state.failure, DownloaderError::IOError),
            }
        },
        AssemblyStep::WriteAudio => if succeeded {
            Assembly { step: AssemblyStep::Mux, failure: state.failure }
        } else {
            Assembly {
                step: AssemblyStep::RemoveVideo,
                failure: first_failure(state.failure, DownloaderError::IOError),
            }
        },
        AssemblyStep::Mux => Assembly {
            step: AssemblyStep::RemoveVideo,
            failure: if succeeded {
                state.failure
            } else {
                first_failure(state.failure, DownloaderError::MuxError)
            },
        },
        AssemblyStep::RemoveVideo => Assembly {
            step: AssemblyStep::RemoveAudio,
            failure: if succeeded {
                state.failure
            } else {
                first_failure(state.failure, DownloaderError::IOError)
            },
        },
        AssemblyStep::RemoveAudio => Assembly {
            step: AssemblyStep::Done,
            failure: if succeeded {
                state.failure
            } else {
                first_failure(state.failure, DownloaderError::IOError)
            },
        },
        AssemblyStep::Done => state,
    }
}

/// The state of an assembly whose steps so far came out as `outcomes` say.
pub open spec fn run(outcomes: Seq<bool>) -> Assembly
    decreases outcomes.len(),
{
    if outcomes.len() == 0 {
        initial()
    } else {
        after(run(outcomes.drop_last()), outcomes.last())
    }
}

/// Some step performed during `outcomes` was `step`.
pub open spec fn performed(outcomes: Seq<bool>, step: AssemblyStep) -> bool {
    exists|i: int| 0 <= i < outcomes.len() && #[trigger] run(outcomes.take(i)).step == step
}

impl Assembly {
    /// An assembly before its first step.
    pub fn start() -> (state: Assembly)
        ensures
            state == initial(),
    {
        Assembly { step: AssemblyStep::WriteVideo, failure: None }
    }

    /// The state that follows once the current step has been performed and
    /// has succeeded or not.
    pub fn advance(self, succeeded: bool) -> (next: Assembly)
        ensures
            next == after(self, succeeded),
    {
        let kept = match self.failure {
            Some(e) => Some(e),
            None => if succeeded {
                None
            } else {
                match self.step {
                    AssemblyStep::Mux => Some(DownloaderError::MuxError),
                    AssemblyStep::Done => None,
                    _ => Some(DownloaderError::IOError),
                }
            },
        };
        let step = match self.step {
            AssemblyStep::WriteVideo => if succeeded {
                AssemblyStep::WriteAudio
            } else {
                AssemblyStep::RemoveVideo
            },
            AssemblyStep::WriteAudio => if succeeded {
                AssemblyStep::Mux
            } else {
                AssemblyStep::RemoveVideo
            },
            AssemblyStep::Mux => AssemblyStep::RemoveVideo,
            AssemblyStep::RemoveVideo => AssemblyStep::RemoveAudio,
            AssemblyStep::RemoveAudio => AssemblyStep::Done,
            AssemblyStep::Done => AssemblyStep::Done,
        };
        Assembly { step, failure: kept }
    }

    /// What came of the assembly, once it has ended: the output's name where
    /// every step succeeded, else the first failure. `None` while steps remain.
    pub fn outcome(&self, output: String) -> (result: Option<Result<String, DownloaderError>>)
        ensures
            result == match (self.step, self.failure) {
                (AssemblyStep::Done, None) => Some(Ok::<String, DownloaderError>(output)),
                (AssemblyStep::Done, Some(e)) => Some(Err::<String, DownloaderError>(e)),
                _ => None::<Result<String, DownloaderError>>,
            },
    {
        match self.step {
            AssemblyStep::Done => match self.failure {
                None => Some(Ok(output)),
                Some(e) => Some(Err(e)),
            },
            _ => None,
        }
    }
}

/// Whether the muxer has done its work: it was started and has ended with
/// status zero. `None` stands for a muxer that could not be started or has
/// ended without a status.
pub fn muxer_succeeded(exit_status: Option<i32>) -> (succeeded: bool)
    ensures
        succeeded == (exit_status == Some(0i32)),
{
    match exit_status {
        Some(status) => status == 0,
        None => false,
    }
}

/// A number in decimal has at least one character, and none of them is an
/// underscore.
pub proof fn lemma_decimal_shape(n: nat)
    ensures
        decimal(n).len() >= 1,
        forall|i: int| 0 <= i < decimal(n).len() ==> decimal(n)[i] != '_',
    decreases n,
{
    if n >= 10 {
        lemma_decimal_shape(n / 10);
    }
}

/// Different numbers are written differently.
pub proof fn lemma_decimal_injective(a: nat, b: nat)
    requires
        decimal(a) == decimal(b),
    ensures
        a == b,
    decreases a,
{
    lemma_decimal_shape(a / 10);
    lemma_decimal_shape(b / 10);
    if a >= 10 && b >= 10 {
        assert(decimal(a).drop_last() =~= decimal(a / 10));
        assert(decimal(b).drop_last() =~= decimal(b / 10));
        assert(decimal(a).last() == digit(a % 10));
        assert(decimal(b).last() == digit(b % 10));
        lemma_decimal_injective(a / 10, b / 10);
        assert(a % 10 == b % 10);
    } else if a < 10 && b < 10 {
        assert(decimal(a)[0] == digit(a));
        assert(decimal(b)[0] == digit(b));
    } else if a < 10 {
        assert(decimal(a).len() == 1);
        assert(decimal(b).len() == decimal(b / 10).len() + 1);
    } else {
        assert(decimal(b).len() == 1);
        assert(decimal(a).len() == decimal(a / 10).len() + 1);
    }
}

/// A temporary name tells the task, the kind and the name of the track that
/// it was made for: temporary files of different download tasks never
/// collide, nor do those of the two tracks of one task.
pub proof fn lemma_temp_names_differ(
    task_a: u64,
    kind_a: TrackKind,
    track_a: Seq<char>,
    task_b: u64,
    kind_b: TrackKind,
    track_b: Seq<char>,
)
    requires
        temp_name(task_a, kind_a, track_a) == temp_name(task_b, kind_b, track_b),
    ensures
        task_a == task_b,
        kind_a == kind_b,
        track_a == track_b,
{
    reveal_strlit("_video_");
    reveal_strlit("_audio_");
    reveal_strlit(".part");
    let digits_a = decimal(task_a as nat);
    let digits_b = decimal(task_b as nat);
    let tag_a = kind_tag(kind_a);
    let tag_b = kind_tag(kind_b);
    let end = ".part"@;
    let name_a = digits_a + tag_a + track_a + end;
    let name_b = digits_b + tag_b + track_b + end;
    lemma_decimal_shape(task_a as nat);
    lemma_decimal_shape(task_b as nat);
    assert(tag_a.len() == 7 && tag_a[0] == '_');
    assert(tag_b.len() == 7 && tag_b[0] == '_');
    assert(name_a == name_b);
    if digits_a.len() < digits_b.len() {
        assert(name_a[digits_a.len() as int] == tag_a[0]);
        assert(name_b[digits_a.len() as int] == digits_b[digits_a.len() as int]);
    }
    if digits_b.len() < digits_a.len() {
        assert(name_b[digits_b.len() as int] == tag_b[0]);
        assert(name_a[digits_b.len() as int] == digits_a[digits_b.len() as int]);
    }
    let n = digits_a.len() as int;
    assert(digits_a =~= name_a.take(n));
    assert(digits_b =~= name_b.take(n));
    lemma_decimal_injective(task_a as nat, task_b as nat);
    assert(name_a[n + 1] == tag_a[1]);
    assert(name_b[n + 1] == tag_b[1]);
    assert(name_a.len() == n + 7 + track_a.len() + 5);
    assert(name_b.len() == n + 7 + track_b.len() + 5);
    assert(track_a =~= name_a.subrange(n + 7, n + 7 + track_a.len()));
    assert(track_b =~= name_b.subrange(n + 7, n + 7 + track_b.len()));
}

/// The muxer never reads and writes one file: the temporary files of the two
/// tracks of a task differ from each other, whatever the tracks are called,
/// and each differs from every finished file.
pub proof fn lemma_paths_differ(
    task: u64,
    video_name: Seq<char>,
    audio_name: Seq<char>,
    resolution: Seq<char>,
)
    ensures
        temp_name(task, TrackKind::Video, video_name) != temp_name(
            task,
            TrackKind::Audio,
            audio_name,
        ),
        temp_name(task, TrackKind::Video, video_name) != output_name(video_name, resolution),
        temp_name(task, TrackKind::Audio, audio_name) != output_name(video_name, resolution),
{
    let video = temp_name(task, TrackKind::Video, video_name);
    let audio = temp_name(task, TrackKind::Audio, audio_name);
    let output = output_name(video_name, resolution);
    if video == audio {
        lemma_temp_names_differ(
            task,
            TrackKind::Video,
            video_name,
            task,
            TrackKind::Audio,
            audio_name,
        );
    }
    reveal_strlit(".part");
    reveal_strlit(".mp4");
    assert(".part"@.len() == 5 && ".part"@[4] == 't');
    assert(".mp4"@.len() == 4 && ".mp4"@[3] == '4');
    assert(video.last() == ".part"@[4]);
    assert(audio.last() == ".part"@[4]);
    assert(output.last() == ".mp4"@[3]);
}

/// What was performed stays performed when more steps follow.
pub proof fn lemma_performed_extends(outcomes: Seq<bool>, step: AssemblyStep)
    requires
        outcomes.len() > 0,
        performed(outcomes.drop_last(), step) || run(outcomes.drop_last()).step == step,
    ensures
        performed(outcomes, step),
{
    let before = outcomes.drop_last();
    if performed(before, step) {
        let i = choose|i: int| 0 <= i < before.len() && #[trigger] run(before.take(i)).step == step;
        assert(outcomes.take(i) =~= before.take(i));
    } else {
        assert(outcomes.take(outcomes.len() - 1) =~= before);
    }
}

/// No temporary file is leaked: on every path to its end, whichever steps
/// failed, an assembly has removed both temporary files, the video track's
/// first.
pub proof fn lemma_cleanup_on_every_path(outcomes: Seq<bool>)
    ensures
        run(outcomes).step == AssemblyStep::RemoveAudio ==> performed(
            outcomes,
            AssemblyStep::RemoveVideo,
        ),
        run(outcomes).step == AssemblyStep::Done ==> performed(outcomes, AssemblyStep::RemoveVideo)
            && performed(outcomes, AssemblyStep::RemoveAudio),
    decreases outcomes.len(),
{
    if outcomes.len() > 0 {
        let before = outcomes.drop_last();
        lemma_cleanup_on_every_path(before);
        if run(outcomes).step == AssemblyStep::RemoveAudio {
            lemma_performed_extends(outcomes, AssemblyStep::RemoveVideo);
        }
        if run(outcomes).step == AssemblyStep::Done {
            lemma_performed_extends(outcomes, AssemblyStep::RemoveVideo);
            lemma_performed_extends(outcomes, AssemblyStep::RemoveAudio);
        }
    }
}

/// An assembly ends after five steps at most, and its failure is the first
/// that it met: none if and only if both writes, the muxer and both removals
/// succeeded.
pub proof fn lemma_assembly_ends(outcomes: Seq<bool>)
    requires
        outcomes.len() >= 5,
    ensures
        run(outcomes).step == AssemblyStep::Done,
        run(outcomes).failure is None <==> (outcomes[0] && outcomes[1] && outcomes[2]
            && outcomes[3] && outcomes[4]),
    decreases outcomes.len(),
{
    if outcomes.len() == 5 {
        let a = outcomes.take(1);
        let b = outcomes.take(2);
        let c = outcomes.take(3);
        let d = outcomes.take(4);
        assert(outcomes.drop_last() =~= d);
        assert(d.drop_last() =~= c);
        assert(c.drop_last() =~= b);
        assert(b.drop_last() =~= a);
        assert(a.drop_last() =~= Seq::<bool>::empty());
        assert(run(Seq::<bool>::empty()) == initial());
        assert(run(a) == after(initial(), outcomes[0]));
        assert(run(b) == after(run(a), outcomes[1]));
        assert(run(c) == after(run(b), outcomes[2]));
        assert(run(d) == after(run(c), outcomes[3]));
        assert(run(outcomes) == after(run(d), outcomes[4]));
    } else {
        lemma_assembly_ends(outcomes.drop_last());
    }
}

} // verus!
