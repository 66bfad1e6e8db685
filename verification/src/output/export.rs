//! The ffmpeg invocations that mux the downloaded streams into an MP4 file,
//! and the intermediate files they leave behind.
use vstd::prelude::*;

use crate::protocol::media::Media;
use crate::stream::Stream;
use crate::text::push_str;

verus! {

/// A video stream and an optional audio rendition, to be muxed together.
pub struct Export {
    pub video: Stream,
    pub audio: Option<Media>,
}

/// The characters of each string of a sequence.
pub open spec fn string_views(v: Seq<String>) -> Seq<Seq<char>> {
    v.map_values(|s: String| s@)
}

/// The arguments for ffmpeg that read the video (and the audio, where there
/// is one), copy the video, encode the audio as AAC and write `output`.
pub open spec fn export_args(video: Seq<char>, audio: Option<Seq<char>>, output: Seq<char>) -> Seq<
    Seq<char>,
> {
    seq!["-i"@, video] + match audio {
        Some(a) => seq!["-i"@, a],
        None => Seq::<Seq<char>>::empty(),
    } + seq!["-c:v"@, "copy"@, "-c:a"@, "aac"@, "-strict"@, "experimental"@, output]
}

/// The arguments for ffmpeg that copy both the video and the audio of
/// `input` unchanged into `output`.
pub open spec fn copy_args(input: Seq<char>, output: Seq<char>) -> Seq<Seq<char>> {
    seq!["-i"@, input, "-c:v"@, "copy"@, "-c:a"@, "copy"@, output]
}

/// The muxing arguments read the video first and write to the output path
/// last, taken character for character; where there is audio it is the
/// second input. There are eleven arguments with audio, nine without.
pub proof fn law_export_args_shape(video: Seq<char>, audio: Option<Seq<char>>, output: Seq<char>)
    ensures
        export_args(video, audio, output).len() == (if audio is Some {
            11int
        } else {
            9int
        }),
        export_args(video, audio, output)[0] == "-i"@,
        export_args(video, audio, output)[1] == video,
        export_args(video, audio, output).last() == output,
        audio matches Some(a) ==> export_args(video, audio, output)[2] == "-i"@ && export_args(
            video,
            audio,
            output,
        )[3] == a,
{
}

/// The copying arguments read `input` and write to `output` last, both
/// taken character for character.
pub proof fn law_copy_args_shape(input: Seq<char>, output: Seq<char>)
    ensures
        copy_args(input, output).len() == 7,
        copy_args(input, output)[1] == input,
        copy_args(input, output).last() == output,
{
}

/// A string holding the characters of `s`.
fn owned(s: &str) -> (r: String)
    ensures
        r@ == s@,
{
    let mut r = String::new();
    push_str(&mut r, s);
    r
}

impl Export {
    /// Where the audio rendition's stream was written, if there is one.
    pub open spec fn audio_path(&self) -> Option<Seq<char>> {
        match self.audio {
            Some(m) => Some(m.stream.output_path@),
            None => None,
        }
    }

    /// The arguments of the ffmpeg call that writes the export to
    /// `output_path`: the video's file, then the audio's where there is
    /// one, as inputs.
    pub fn ffmpeg_args(&self, output_path: &str) -> (r: Vec<String>)
        ensures
            string_views(r@) == export_args(
                self.video.output_path@,
                self.audio_path(),
                output_path@,
            ),
            r@.len() > 0,
            r@.last()@ == output_path@,
    {
        let mut r: Vec<String> = Vec::new();
        r.push(owned("-i"));
        r.push(owned(self.video.output_path.as_str()));
        match &self.audio {
            Some(m) => {
                r.push(owned("-i"));
                r.push(owned(m.stream.output_path.as_str()));
            },
            None => {},
        }
        r.push(owned("-c:v"));
        r.push(owned("copy"));
        r.push(owned("-c:a"));
        r.push(owned("aac"));
        r.push(owned("-strict"));
        r.push(owned("experimental"));
        r.push(owned(output_path));
        assert(string_views(r@) =~= export_args(
            self.video.output_path@,
            self.audio_path(),
            output_path@,
        ));
        proof {
            law_export_args_shape(self.video.output_path@, self.audio_path(), output_path@);
            assert(string_views(r@)[r@.len() - 1] == r@.last()@);
        }
        r
    }

    /// The downloaded files that the export consumes and that are removed
    /// once it has run: the video's, then the audio's where there is one.
    pub fn intermediate_files(&self) -> (r: Vec<String>)
        ensures
            string_views(r@) == seq![self.video.output_path@] + match self.audio_path() {
                Some(a) => seq![a],
                None => Seq::<Seq<char>>::empty(),
            },
    {
        let mut r: Vec<String> = Vec::new();
        r.push(owned(self.video.output_path.as_str()));
        match &self.audio {
            Some(m) => r.push(owned(m.stream.output_path.as_str())),
            None => {},
        }
        assert(string_views(r@) =~= seq![self.video.output_path@] + match self.audio_path() {
            Some(a) => seq![a],
            None => Seq::<Seq<char>>::empty(),
        });
        r
    }
}

/// Converts a transport stream to MP4. This step does no work of its own:
/// the conversion is made by [`Export::ffmpeg_args`]' ffmpeg call, and this
/// always succeeds.
pub fn convert_ts_to_mp4(video: &str, output: &str, audio: Option<String>) -> (r: Result<
    (),
    String,
>)
    ensures
        r is Ok,
{
    Ok(())
}

/// The arguments of the ffmpeg call that copies the streams of `input`
/// unchanged into `output`.
pub fn convert_args(input: &str, output: &str) -> (r: Vec<String>)
    ensures
        string_views(r@) == copy_args(input@, output@),
{
    let mut r: Vec<String> = Vec::new();
    r.push(owned("-i"));
    r.push(owned(input));
    r.push(owned("-c:v"));
    r.push(owned("copy"));
    r.push(owned("-c:a"));
    r.push(owned("copy"));
    r.push(owned(output));
    assert(string_views(r@) =~= copy_args(input@, output@));
    r
}

} // verus!
