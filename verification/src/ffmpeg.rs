//! Running ffmpeg: where to look for it, what to tell it, what its end means.

use crate::decimals;
use crate::frame_rate::FrameRate;
use crate::text;
use vstd::prelude::*;

verus! {

/// How many folders, from the executable's own upward, may hold an ffmpeg.
pub const SEARCHED_FOLDERS: usize = 8;

/// A place where ffmpeg may be.
#[derive(Debug, Clone, PartialEq, Eq)]
pub enum FfmpegCandidate {
    /// `file` below the folder `level` steps above that of the executables.
    Beside { level: usize, file: String },
    /// A path of its own.
    Path(String),
}

/// What an `FfmpegCandidate` stands for.
pub ghost enum FfmpegPlace {
    Beside(nat, Seq<char>),
    Path(Seq<char>),
}

impl View for FfmpegCandidate {
    type V = FfmpegPlace;

    open spec fn view(&self) -> FfmpegPlace {
        match self {
            FfmpegCandidate::Beside { level, file } => FfmpegPlace::Beside(*level as nat, file@),
            FfmpegCandidate::Path(path) => FfmpegPlace::Path(path@),
        }
    }
}

/// What a list of candidates stands for.
pub open spec fn places_of(candidates: Seq<FfmpegCandidate>) -> Seq<FfmpegPlace> {
    candidates.map_values(|c: FfmpegCandidate| c@)
}

/// The places below the first `levels` folders, the nearest first.
pub open spec fn places_beside(levels: nat) -> Seq<FfmpegPlace>
    decreases levels,
{
    if levels == 0 {
        Seq::empty()
    } else {
        let level = (levels - 1) as nat;
        places_beside(level) + seq![
            FfmpegPlace::Beside(level, "deps/windows/ffmpeg/bin/ffmpeg.exe"@),
            FfmpegPlace::Beside(level, "ffmpeg.exe"@),
            FfmpegPlace::Beside(level, "bin/win64/ffmpeg.exe"@),
            FfmpegPlace::Beside(level, "bin/ffmpeg"@),
        ]
    }
}

/// The lines of `s`, each trimmed, as paths.
pub open spec fn listed_paths(s: Seq<char>) -> Seq<FfmpegPlace>
    decreases s.len(),
    via listed_paths_decreases
{
    if s.len() == 0 {
        Seq::empty()
    } else {
        let i = text::first_index(s, '\n');
        let path = seq![FfmpegPlace::Path(text::trim(s.take(i)))];
        if i < s.len() {
            path + listed_paths(s.skip(i + 1))
        } else {
            path
        }
    }
}

#[via_fn]
proof fn listed_paths_decreases(s: Seq<char>) {
    text::first_index_is_first(s, '\n');
}

/// Every place to look, the preferred first: beside the executables, then below the current
/// folder, then what the system's search printed.
pub open spec fn search_order(folders: nat, search: Option<Seq<char>>) -> Seq<FfmpegPlace> {
    places_beside(
        if folders < SEARCHED_FOLDERS {
            folders
        } else {
            SEARCHED_FOLDERS as nat
        },
    ) + seq![
        FfmpegPlace::Path("deps/windows/ffmpeg/bin/ffmpeg.exe"@),
        FfmpegPlace::Path("ffmpeg.exe"@),
    ] + (match search {
        Some(printed) => listed_paths(printed),
        None => Seq::empty(),
    })
}

fn add_beside(list: &mut Vec<FfmpegCandidate>, level: usize, file: &str)
    ensures
        places_of(final(list)@) == places_of(old(list)@).push(
            FfmpegPlace::Beside(level as nat, file@),
        ),
{
    list.push(FfmpegCandidate::Beside { level, file: file.to_owned() });
    assert(places_of(list@) == places_of(old(list)@).push(
        FfmpegPlace::Beside(level as nat, file@),
    ));
}

fn add_path(list: &mut Vec<FfmpegCandidate>, path: String)
    ensures
        places_of(final(list)@) == places_of(old(list)@).push(FfmpegPlace::Path(path@)),
{
    let ghost shown = path@;
    list.push(FfmpegCandidate::Path(path));
    assert(places_of(list@) == places_of(old(list)@).push(FfmpegPlace::Path(shown)));
}

/// Where to look for ffmpeg; the first place that holds a file is the one to use. `folders` is how
/// many folders there are from that of the executables up to the root, none where it is unknown.
/// `search` is what the system's own search for `ffmpeg` printed, where it found any.
///
/// An ffmpeg found by that search may be too old to stamp packets, so it comes last.
pub fn ffmpeg_candidates(folders: usize, search: Option<&str>) -> (res: Vec<FfmpegCandidate>)
    ensures
        places_of(res@) == search_order(
            folders as nat,
            match search {
                Some(printed) => Some(printed@),
                None => None,
            },
        ),
{
    let mut list: Vec<FfmpegCandidate> = Vec::new();
    assert(places_of(list@) == Seq::<FfmpegPlace>::empty());
    let levels: usize = if folders < SEARCHED_FOLDERS {
        folders
    } else {
        SEARCHED_FOLDERS
    };
    let mut level: usize = 0;
    while level < levels
        invariant
            level <= levels,
            places_of(list@) == places_beside(level as nat),
        decreases levels - level,
    {
        let ghost before = places_of(list@);
        add_beside(&mut list, level, "deps/windows/ffmpeg/bin/ffmpeg.exe");
        add_beside(&mut list, level, "ffmpeg.exe");
        add_beside(&mut list, level, "bin/win64/ffmpeg.exe");
        add_beside(&mut list, level, "bin/ffmpeg");
        assert(places_of(list@) == before + seq![
            FfmpegPlace::Beside(level as nat, "deps/windows/ffmpeg/bin/ffmpeg.exe"@),
            FfmpegPlace::Beside(level as nat, "ffmpeg.exe"@),
            FfmpegPlace::Beside(level as nat, "bin/win64/ffmpeg.exe"@),
            FfmpegPlace::Beside(level as nat, "bin/ffmpeg"@),
        ]);
        level += 1;
    }
    let ghost beside = places_of(list@);
    add_path(&mut list, "deps/windows/ffmpeg/bin/ffmpeg.exe".to_owned());
    add_path(&mut list, "ffmpeg.exe".to_owned());
    let ghost fixed = beside + seq![
        FfmpegPlace::Path("deps/windows/ffmpeg/bin/ffmpeg.exe"@),
        FfmpegPlace::Path("ffmpeg.exe"@),
    ];
    assert(places_of(list@) == fixed);
    if let Some(printed) = search {
        let chars = text::chars_of(printed);
        let mut from: usize = 0;
        assert(chars@.skip(0) == chars@);
        while from < chars.len()
            invariant
                from <= chars@.len(),
                places_of(list@) + listed_paths(chars@.skip(from as int)) == fixed + listed_paths(
                    chars@,
                ),
            decreases chars@.len() - from,
        {
            let ghost before = places_of(list@);
            let ghost tail = chars@.skip(from as int);
            let at: usize = text::find_from(chars.as_slice(), '\n', from);
            let line = text::copy_range(chars.as_slice(), from, at);
            let path = text::trimmed(line.as_slice());
            assert(line@ == tail.take(at - from));
            add_path(&mut list, text::string_of(path.as_slice()));
            if at < chars.len() {
                proof {
                    assert(tail.skip(at - from + 1) == chars@.skip(at + 1));
                    assert(places_of(list@) + listed_paths(chars@.skip(at + 1)) == before
                        + listed_paths(tail));
                }
                from = at + 1;
            } else {
                from = at;
                proof {
                    assert(chars@.skip(from as int) == Seq::<char>::empty());
                    assert(places_of(list@) + Seq::<FfmpegPlace>::empty() == before + listed_paths(
                        tail,
                    ));
                }
            }
        }
        proof {
            assert(chars@.skip(from as int) == Seq::<char>::empty());
            assert(places_of(list@) + Seq::<FfmpegPlace>::empty() == places_of(list@));
        }
    } else {
        assert(fixed + Seq::<FfmpegPlace>::empty() == fixed);
    }
    list
}

/// An argument of the ffmpeg command line.
#[derive(Debug, Clone, PartialEq, Eq)]
pub enum MuxArg {
    Text(String),
    /// The path of the video file.
    VideoInput,
    /// The path of the audio file.
    AudioInput,
    /// The path of the file that ffmpeg writes.
    Output,
}

/// What a `MuxArg` stands for.
pub ghost enum MuxWord {
    Text(Seq<char>),
    VideoInput,
    AudioInput,
    Output,
}

impl View for MuxArg {
    type V = MuxWord;

    open spec fn view(&self) -> MuxWord {
        match self {
            MuxArg::Text(t) => MuxWord::Text(t@),
            MuxArg::VideoInput => MuxWord::VideoInput,
            MuxArg::AudioInput => MuxWord::AudioInput,
            MuxArg::Output => MuxWord::Output,
        }
    }
}

/// What a list of arguments stands for.
pub open spec fn words_of(args: Seq<MuxArg>) -> Seq<MuxWord> {
    args.map_values(|a: MuxArg| a@)
}

/// The stamps that give each packet its place at the rate `fps`.
pub open spec fn restamp(fps: Seq<char>) -> Seq<char> {
    "setts=pts=N/"@ + fps + "/TB:dts=N/"@ + fps + "/TB"@
}

/// A rate in decimal, with `places` digits after the point.
pub open spec fn rate_text(fps: FrameRate, places: nat) -> Seq<char> {
    decimals::fixed(fps.num as nat, fps.den as nat, places)
}

/// The ffmpeg command line for a take: what is there goes in, video is copied, audio stays PCM,
/// and pictures are stamped anew at their actual rate.
pub open spec fn command_line(
    has_video: bool,
    has_audio: bool,
    demux: Seq<char>,
    sample_rate: u32,
    fps: FrameRate,
) -> Seq<MuxWord> {
    let none = Seq::<MuxWord>::empty();
    seq![
        MuxWord::Text("-hide_banner"@),
        MuxWord::Text("-loglevel"@),
        MuxWord::Text("error"@),
        MuxWord::Text("-y"@),
    ] + (if has_video {
        seq![
            MuxWord::Text("-fflags"@),
            MuxWord::Text("+genpts"@),
            MuxWord::Text("-f"@),
            MuxWord::Text(demux),
            MuxWord::Text("-framerate"@),
            MuxWord::Text(rate_text(fps, 3)),
            MuxWord::Text("-i"@),
            MuxWord::VideoInput,
        ]
    } else {
        none
    }) + (if has_audio {
        seq![
            MuxWord::Text("-f"@),
            MuxWord::Text("s16le"@),
            MuxWord::Text("-ar"@),
            MuxWord::Text(text::decimal(sample_rate as nat)),
            MuxWord::Text("-ac"@),
            MuxWord::Text("2"@),
            MuxWord::Text("-i"@),
            MuxWord::AudioInput,
        ]
    } else {
        none
    }) + (if has_video {
        seq![MuxWord::Text("-c:v"@), MuxWord::Text("copy"@)]
    } else {
        none
    }) + (if has_audio {
        seq![MuxWord::Text("-c:a"@), MuxWord::Text("pcm_s16le"@)]
    } else {
        none
    }) + (if has_video && fps.one_or_more() {
        seq![MuxWord::Text("-bsf:v"@), MuxWord::Text(restamp(rate_text(fps, 6)))]
    } else {
        none
    }) + seq![MuxWord::Output]
}

fn add_text(args: &mut Vec<MuxArg>, t: &str)
    ensures
        words_of(final(args)@) == words_of(old(args)@).push(MuxWord::Text(t@)),
{
    args.push(MuxArg::Text(t.to_owned()));
    assert(words_of(args@) == words_of(old(args)@).push(MuxWord::Text(t@)));
}

fn add_arg(args: &mut Vec<MuxArg>, arg: MuxArg)
    ensures
        words_of(final(args)@) == words_of(old(args)@).push(arg@),
{
    let ghost word = arg@;
    args.push(arg);
    assert(words_of(args@) == words_of(old(args)@).push(word));
}

/// The ffmpeg arguments for a take whose pictures are shown at the rate `fps`.
pub fn mux_args(
    has_video: bool,
    has_audio: bool,
    demux: &str,
    sample_rate: u32,
    fps: FrameRate,
) -> (res: Vec<MuxArg>)
    requires
        fps.wf(),
    ensures
        words_of(res@) == command_line(has_video, has_audio, demux@, sample_rate, fps),
{
    let mut args: Vec<MuxArg> = Vec::new();
    assert(words_of(args@) == Seq::<MuxWord>::empty());
    add_text(&mut args, "-hide_banner");
    add_text(&mut args, "-loglevel");
    add_text(&mut args, "error");
    add_text(&mut args, "-y");
    if has_video {
        add_text(&mut args, "-fflags");
        add_text(&mut args, "+genpts");
        add_text(&mut args, "-f");
        add_text(&mut args, demux);
        add_text(&mut args, "-framerate");
        let rate = decimals::fixed_text(fps.num, fps.den, 3);
        add_text(&mut args, rate.as_str());
        add_text(&mut args, "-i");
        add_arg(&mut args, MuxArg::VideoInput);
    }
    if has_audio {
        let rate = text::decimal_text(sample_rate as u128);
        add_text(&mut args, "-f");
        add_text(&mut args, "s16le");
        add_text(&mut args, "-ar");
        add_text(&mut args, rate.as_str());
        add_text(&mut args, "-ac");
        add_text(&mut args, "2");
        add_text(&mut args, "-i");
        add_arg(&mut args, MuxArg::AudioInput);
    }
    if has_video {
        add_text(&mut args, "-c:v");
        add_text(&mut args, "copy");
    }
    if has_audio {
        add_text(&mut args, "-c:a");
        add_text(&mut args, "pcm_s16le");
    }
    if has_video && fps.num >= fps.den {
        let rate = decimals::fixed_text(fps.num, fps.den, 6);
        let stamps = "setts=pts=N/".to_owned().concat(rate.as_str()).concat("/TB:dts=N/").concat(
            rate.as_str(),
        ).concat("/TB");
        add_text(&mut args, "-bsf:v");
        add_text(&mut args, stamps.as_str());
    }
    add_arg(&mut args, MuxArg::Output);
    args
}

/// What ffmpeg's end means: its exit status in words and what it printed to its error stream,
/// trimmed, where it failed.
pub fn ffmpeg_outcome(success: bool, status: &str, stderr: &str) -> (res: Result<(), String>)
    ensures
        success ==> res is Ok,
        !success ==> (res matches Err(error) && error@ == "ffmpeg exit "@ + status@ + (
        if text::trim(stderr@).len() == 0 {
            Seq::empty()
        } else {
            ": "@ + text::trim(stderr@)
        })),
{
    if success {
        return Ok(());
    }
    let message = text::trimmed_text(stderr);
    let head = "ffmpeg exit ".to_owned().concat(status);
    if message.as_str().is_empty() {
        assert(head@ + Seq::<char>::empty() == head@);
        Err(head)
    } else {
        let res = head.concat(": ").concat(message.as_str());
        assert(res@ == head@ + (": "@ + message@));
        Err(res)
    }
}

proof fn places_beside_are_beside(levels: nat)
    ensures
        places_beside(levels).len() == 4 * levels,
        forall|k: int| 0 <= k < places_beside(levels).len() ==> places_beside(levels)[k] is Beside,
    decreases levels,
{
    if levels > 0 {
        places_beside_are_beside((levels - 1) as nat);
    }
}

proof fn listed_paths_are_paths(s: Seq<char>)
    ensures
        forall|k: int| 0 <= k < listed_paths(s).len() ==> listed_paths(s)[k] is Path,
    decreases s.len(),
{
    if s.len() > 0 {
        text::first_index_is_first(s, '\n');
        let i = text::first_index(s, '\n');
        if i < s.len() {
            listed_paths_are_paths(s.skip(i + 1));
        }
    }
}

/// A copy beside the executables is preferred to any other: all such places come first.
pub proof fn bundled_copies_come_first(folders: nat, search: Option<Seq<char>>, a: int, b: int)
    requires
        0 <= a < search_order(folders, search).len(),
        0 <= b < search_order(folders, search).len(),
        search_order(folders, search)[a] is Beside,
        search_order(folders, search)[b] is Path,
    ensures
        a < b,
{
    let levels = if folders < SEARCHED_FOLDERS {
        folders
    } else {
        SEARCHED_FOLDERS as nat
    };
    places_beside_are_beside(levels);
    if let Some(printed) = search {
        listed_paths_are_paths(printed);
    }
}

/// Remuxing is lossless: pictures are copied as they are, and sound stays 16-bit PCM.
pub proof fn remuxing_is_lossless(
    has_video: bool,
    has_audio: bool,
    demux: Seq<char>,
    sample_rate: u32,
    fps: FrameRate,
)
    ensures
        ({
            let line = command_line(has_video, has_audio, demux, sample_rate, fps);
            &&& has_video ==> exists|k: int|
                #![trigger line[k]]
                0 <= k && k + 1 < line.len() && line[k] == MuxWord::Text("-c:v"@) && line[k + 1]
                    == MuxWord::Text("copy"@)
            &&& has_audio ==> exists|k: int|
                #![trigger line[k]]
                0 <= k && k + 1 < line.len() && line[k] == MuxWord::Text("-c:a"@) && line[k + 1]
                    == MuxWord::Text("pcm_s16le"@)
        }),
{
    let line = command_line(has_video, has_audio, demux, sample_rate, fps);
    let inputs: int = 4 + (if has_video { 8int } else { 0 }) + (if has_audio { 8int } else { 0 });
    if has_video {
        assert(line[inputs] == MuxWord::Text("-c:v"@));
        assert(line[inputs + 1] == MuxWord::Text("copy"@));
    }
    let sound: int = inputs + (if has_video { 2int } else { 0 });
    if has_audio {
        assert(line[sound] == MuxWord::Text("-c:a"@));
        assert(line[sound + 1] == MuxWord::Text("pcm_s16le"@));
    }
}

/// The nearest folders are all searched, four places each, the nearest folder first and in each
/// the bundled copy first: all folders up to the root, but eight at most.
pub proof fn near_folders_are_searched(folders: nat, search: Option<Seq<char>>, level: nat)
    requires
        level < folders,
        level < 8,
    ensures
        ({
            let order = search_order(folders, search);
            &&& 4 * level + 3 < order.len()
            &&& order[4 * level as int] == FfmpegPlace::Beside(
                level,
                "deps/windows/ffmpeg/bin/ffmpeg.exe"@,
            )
            &&& order[4 * level as int + 1] == FfmpegPlace::Beside(level, "ffmpeg.exe"@)
            &&& order[4 * level as int + 2] == FfmpegPlace::Beside(level, "bin/win64/ffmpeg.exe"@)
            &&& order[4 * level as int + 3] == FfmpegPlace::Beside(level, "bin/ffmpeg"@)
        }),
{
    let levels = if folders < 8 {
        folders
    } else {
        8
    };
    places_beside_are_beside(levels);
    places_of_level(levels, level);
}

proof fn places_of_level(levels: nat, level: nat)
    requires
        level < levels,
    ensures
        ({
            let p = places_beside(levels);
            &&& p.len() == 4 * levels
            &&& p[4 * level as int] == FfmpegPlace::Beside(
                level,
                "deps/windows/ffmpeg/bin/ffmpeg.exe"@,
            )
            &&& p[4 * level as int + 1] == FfmpegPlace::Beside(level, "ffmpeg.exe"@)
            &&& p[4 * level as int + 2] == FfmpegPlace::Beside(level, "bin/win64/ffmpeg.exe"@)
            &&& p[4 * level as int + 3] == FfmpegPlace::Beside(level, "bin/ffmpeg"@)
        }),
    decreases levels,
{
    places_beside_are_beside((levels - 1) as nat);
    if level < levels - 1 {
        places_of_level((levels - 1) as nat, level);
    }
}

/// After the near folders come two places below the current one, then what the search printed, and
/// nothing else.
pub proof fn the_search_comes_last(folders: nat, search: Option<Seq<char>>)
    ensures
        ({
            let order = search_order(folders, search);
            let near = 4 * (if folders < 8 {
                folders as int
            } else {
                8
            });
            &&& near + 2 <= order.len()
            &&& order[near] == FfmpegPlace::Path("deps/windows/ffmpeg/bin/ffmpeg.exe"@)
            &&& order[near + 1] == FfmpegPlace::Path("ffmpeg.exe"@)
            &&& order.skip(near + 2) == (match search {
                Some(printed) => listed_paths(printed),
                None => Seq::empty(),
            })
        }),
{
    let levels: nat = if folders < 8 {
        folders
    } else {
        8
    };
    places_beside_are_beside(levels);
    let order = search_order(folders, search);
    let listed = match search {
        Some(printed) => listed_paths(printed),
        None => Seq::empty(),
    };
    assert(order.skip(4 * levels as int + 2) == listed);
}

/// Each line that the search printed is a path, trimmed, in the order printed.
pub proof fn each_line_is_a_path(line: Seq<char>, rest: Seq<char>)
    requires
        !line.contains('\n'),
    ensures
        listed_paths(Seq::empty()) == Seq::<FfmpegPlace>::empty(),
        line.len() > 0 ==> listed_paths(line) == seq![FfmpegPlace::Path(text::trim(line))],
        listed_paths(line + seq!['\n'] + rest) == seq![FfmpegPlace::Path(text::trim(line))]
            + listed_paths(rest),
{
    let n = line.len() as int;
    let all = line + seq!['\n'] + rest;
    let i = text::first_index(line, '\n');
    let j = text::first_index(all, '\n');
    text::first_index_is_first(line, '\n');
    text::first_index_is_first(all, '\n');
    if i < n {
        assert(line.contains(line[i]));
    }
    assert(line.take(n) == line);
    assert(all[n] == '\n');
    if j < n {
        assert(line.contains(line[j]));
    }
    assert(all.take(n) == line);
    assert(all.skip(n + 1) == rest);
}

/// ffmpeg is told how to read each input, before that input: pictures through the demuxer of the
/// take at the rate of its pictures, sound as 16-bit stereo at the sample rate of the take, whatever
/// these are.
pub proof fn inputs_are_told_as_they_are(
    has_video: bool,
    has_audio: bool,
    demux: Seq<char>,
    sample_rate: u32,
    fps: FrameRate,
)
    ensures
        ({
            let line = command_line(has_video, has_audio, demux, sample_rate, fps);
            let sound = if has_video {
                12
            } else {
                4int
            };
            &&& has_video ==> line.len() > 12 && line[4] == MuxWord::Text("-fflags"@) && line[5]
                == MuxWord::Text("+genpts"@) && line[6] == MuxWord::Text("-f"@) && line[7]
                == MuxWord::Text(demux) && line[8] == MuxWord::Text("-framerate"@) && line[9]
                == MuxWord::Text(decimals::fixed(fps.num as nat, fps.den as nat, 3)) && line[10]
                == MuxWord::Text("-i"@) && line[11] == MuxWord::VideoInput
            &&& has_audio ==> line.len() > sound + 8 && line[sound] == MuxWord::Text("-f"@)
                && line[sound + 1] == MuxWord::Text("s16le"@) && line[sound + 2] == MuxWord::Text(
                "-ar"@,
            ) && (line[sound + 3] matches MuxWord::Text(word) && text::number(word) == Some(
                sample_rate as nat,
            )) && line[sound + 4] == MuxWord::Text("-ac"@) && line[sound + 5] == MuxWord::Text(
                "2"@,
            ) && line[sound + 6] == MuxWord::Text("-i"@) && line[sound + 7] == MuxWord::AudioInput
        }),
{
    text::padded_spells_its_number(sample_rate as nat, 0);
}

/// The whole command line: quiet, overwriting, inputs that are there, codecs for these, stamps at
/// the pictures' rate where it is 1 or more, and the output at the end; nothing else.
pub proof fn command_lines_hold_nothing_else(
    has_video: bool,
    has_audio: bool,
    demux: Seq<char>,
    sample_rate: u32,
    fps: FrameRate,
)
    ensures
        ({
            let line = command_line(has_video, has_audio, demux, sample_rate, fps);
            let v = if has_video {
                1int
            } else {
                0
            };
            let a = if has_audio {
                1int
            } else {
                0
            };
            let stamped = has_video && fps.num >= fps.den;
            let inputs = 4 + 8 * v + 8 * a;
            let codecs = inputs + 2 * v + 2 * a;
            let rate = decimals::fixed(fps.num as nat, fps.den as nat, 6);
            &&& line.len() == codecs + (if stamped {
                2int
            } else {
                0
            }) + 1
            &&& line[0] == MuxWord::Text("-hide_banner"@)
            &&& line[1] == MuxWord::Text("-loglevel"@)
            &&& line[2] == MuxWord::Text("error"@)
            &&& line[3] == MuxWord::Text("-y"@)
            &&& has_video ==> line[inputs] == MuxWord::Text("-c:v"@) && line[inputs + 1]
                == MuxWord::Text("copy"@)
            &&& has_audio ==> line[codecs - 2] == MuxWord::Text("-c:a"@) && line[codecs - 1]
                == MuxWord::Text("pcm_s16le"@)
            &&& stamped ==> line[codecs] == MuxWord::Text("-bsf:v"@) && line[codecs + 1]
                == MuxWord::Text("setts=pts=N/"@ + rate + "/TB:dts=N/"@ + rate + "/TB"@)
            &&& line.last() == MuxWord::Output
        }),
{
}

/// Arguments and places stand for what they hold, each for itself and in their order.
pub proof fn lists_stand_for_what_they_hold(
    args: Seq<MuxArg>,
    candidates: Seq<FfmpegCandidate>,
    i: int,
)
    ensures
        words_of(args).len() == args.len(),
        places_of(candidates).len() == candidates.len(),
        0 <= i < args.len() ==> words_of(args)[i] == (match args[i] {
            MuxArg::Text(t) => MuxWord::Text(t@),
            MuxArg::VideoInput => MuxWord::VideoInput,
            MuxArg::AudioInput => MuxWord::AudioInput,
            MuxArg::Output => MuxWord::Output,
        }),
        0 <= i < candidates.len() ==> places_of(candidates)[i] == (match candidates[i] {
            FfmpegCandidate::Beside { level, file } => FfmpegPlace::Beside(level as nat, file@),
            FfmpegCandidate::Path(path) => FfmpegPlace::Path(path@),
        }),
{
}

} // verus!
