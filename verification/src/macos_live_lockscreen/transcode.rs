//! The encoding of a video for the lock screen: how the encoder is set up, and the steps from
//! the frames of the source to the file.
use vstd::prelude::*;

use crate::text;

verus! {

/// The bits per second to aim for.
pub const AVERAGE_BITRATE_BPS: i32 = 15_000_000;

/// The frames per second.
pub const EXPECTED_FPS: i32 = 60;

/// The most frames from one key frame to the next.
pub const MAX_KEYFRAME_INTERVAL: i32 = 120;

/// The most seconds from one key frame to the next.
pub const MAX_KEYFRAME_INTERVAL_SECS: i32 = 2;

/// The temporal sub-layers: the lock-screen player needs two to go on across lock cycles.
pub const TEMPORAL_LAYER_COUNT: i32 = 2;

/// The frames per second of the base layer: half of all.
pub const BASE_LAYER_FPS: i32 = 30;

/// The milliseconds to wait for a writer that is not ready.
pub const WRITER_WAIT_MILLIS: u64 = 5;

/// The value of a property of the encoder.
#[derive(Debug, Clone, Copy, PartialEq, Eq, Structural)]
pub enum PropertyValue {
    /// The profile HEVC Main10, at whichever level fits.
    Main10,
    Int(i32),
    /// A floating-point number that is whole.
    Real(i32),
    False,
}

/// A property of the encoder, by the name it goes by in messages.
#[derive(Debug, Clone, Copy)]
pub struct Property {
    pub name: &'static str,
    pub value: PropertyValue,
}

/// A [`Property`] as plain values.
pub open spec fn property_text(p: Property) -> (Seq<char>, PropertyValue) {
    (p.name@, p.value)
}

/// Properties as plain values, in order.
pub open spec fn property_texts(properties: Seq<Property>) -> Seq<(Seq<char>, PropertyValue)> {
    properties.map_values(|p: Property| property_text(p))
}

/// The properties of the encoder, in the order in which they are set.
pub fn configure_session() -> (r: Vec<Property>)
    ensures
        property_texts(r@) == seq![
            ("ProfileLevel"@, PropertyValue::Main10),
            ("AverageBitRate"@, PropertyValue::Int(AVERAGE_BITRATE_BPS)),
            ("ExpectedFrameRate"@, PropertyValue::Int(EXPECTED_FPS)),
            ("MaxKeyFrameInterval"@, PropertyValue::Int(MAX_KEYFRAME_INTERVAL)),
            ("MaxKeyFrameIntervalDuration"@, PropertyValue::Real(MAX_KEYFRAME_INTERVAL_SECS)),
            ("RealTime"@, PropertyValue::False),
            ("AllowFrameReordering"@, PropertyValue::False),
            ("NumberOfTemporalLayers"@, PropertyValue::Int(TEMPORAL_LAYER_COUNT)),
            ("BaseLayerFrameRate"@, PropertyValue::Real(BASE_LAYER_FPS)),
        ],
{
    let mut r: Vec<Property> = Vec::new();
    r.push(Property { name: "ProfileLevel", value: PropertyValue::Main10 });
    r.push(Property { name: "AverageBitRate", value: PropertyValue::Int(AVERAGE_BITRATE_BPS) });
    r.push(Property { name: "ExpectedFrameRate", value: PropertyValue::Int(EXPECTED_FPS) });
    r.push(
        Property { name: "MaxKeyFrameInterval", value: PropertyValue::Int(MAX_KEYFRAME_INTERVAL) },
    );
    r.push(
        Property {
            name: "MaxKeyFrameIntervalDuration",
            value: PropertyValue::Real(MAX_KEYFRAME_INTERVAL_SECS),
        },
    );
    r.push(Property { name: "RealTime", value: PropertyValue::False });
    r.push(Property { name: "AllowFrameReordering", value: PropertyValue::False });
    r.push(
        Property {
            name: "NumberOfTemporalLayers",
            value: PropertyValue::Int(TEMPORAL_LAYER_COUNT),
        },
    );
    r.push(Property { name: "BaseLayerFrameRate", value: PropertyValue::Real(BASE_LAYER_FPS) });
    assert(property_texts(r@) =~= seq![
        ("ProfileLevel"@, PropertyValue::Main10),
        ("AverageBitRate"@, PropertyValue::Int(AVERAGE_BITRATE_BPS)),
        ("ExpectedFrameRate"@, PropertyValue::Int(EXPECTED_FPS)),
        ("MaxKeyFrameInterval"@, PropertyValue::Int(MAX_KEYFRAME_INTERVAL)),
        ("MaxKeyFrameIntervalDuration"@, PropertyValue::Real(MAX_KEYFRAME_INTERVAL_SECS)),
        ("RealTime"@, PropertyValue::False),
        ("AllowFrameReordering"@, PropertyValue::False),
        ("NumberOfTemporalLayers"@, PropertyValue::Int(TEMPORAL_LAYER_COUNT)),
        ("BaseLayerFrameRate"@, PropertyValue::Real(BASE_LAYER_FPS)),
    ]);
    r
}

/// What goes wrong on the way from the source to the file, as far as a status tells it.
#[derive(Debug, Clone, Copy)]
pub enum TranscodeError {
    /// A property of the encoder was refused.
    Property { name: &'static str, status: i32 },
    /// The encoder was not created.
    Create { status: i32 },
    /// The reader did not start.
    StartReading,
    /// The reader failed on the way.
    Reading,
    /// A frame was refused, by its number.
    Encode { frame: usize, status: i32 },
    /// The last frames were not completed.
    Complete { status: i32 },
    /// The encoder failed with this status.
    Output { status: i32 },
    /// The encoder produced nothing.
    NoSamples,
    /// A sample was refused, by its number.
    Append { sample: usize },
    /// The file was not finished.
    Finish,
    /// The file was finished, but the writer failed.
    FinishedFailed,
}

impl TranscodeError {
    /// The message that tells the user what is wrong. The reader and the writer tell more in
    /// an error of their own.
    pub open spec fn text(self) -> Seq<char> {
        match self {
            TranscodeError::Property { name, status } => if name@ == "NumberOfTemporalLayers"@ {
                "NumberOfTemporalLayers failed: OSStatus "@ + text::signed_decimal(status as int)
            } else {
                "VTSessionSetProperty("@ + name@ + ") failed: OSStatus "@ + text::signed_decimal(
                    status as int,
                )
            },
            TranscodeError::Create { status } => "VTCompressionSessionCreate failed: OSStatus "@
                + text::signed_decimal(status as int),
            TranscodeError::StartReading => "AVAssetReader startReading failed"@,
            TranscodeError::Reading => "AVAssetReader failed"@,
            TranscodeError::Encode { frame, status } =>
                "VTCompressionSessionEncodeFrame failed at frame "@ + text::decimal(frame as nat)
                + ": OSStatus "@ + text::signed_decimal(status as int),
            TranscodeError::Complete { status } =>
                "VTCompressionSessionCompleteFrames failed: OSStatus "@ + text::signed_decimal(
                status as int,
            ),
            TranscodeError::Output { status } => "encoder produced OSStatus "@
                + text::signed_decimal(status as int),
            TranscodeError::NoSamples => "encoder produced no samples"@,
            TranscodeError::Append { sample } => "AVAssetWriterInput.appendSampleBuffer at "@
                + text::decimal(sample as nat) + " failed"@,
            TranscodeError::Finish => "AVAssetWriter finishWriting failed"@,
            TranscodeError::FinishedFailed => "AVAssetWriter finished with Failed status"@,
        }
    }

    /// The message that tells the user what is wrong.
    pub fn message(&self) -> (r: String)
        ensures
            r@ == self.text(),
    {
        match self {
            TranscodeError::Property { name, status } => {
                let number = text::signed_text(*status);
                if text::same_text(name, "NumberOfTemporalLayers") {
                    text::join2("NumberOfTemporalLayers failed: OSStatus ", number.as_str())
                } else {
                    let mut r = text::join3("VTSessionSetProperty(", name, ") failed: OSStatus ");
                    r.append(number.as_str());
                    r
                }
            },
            TranscodeError::Create { status } => text::join2(
                "VTCompressionSessionCreate failed: OSStatus ",
                text::signed_text(*status).as_str(),
            ),
            TranscodeError::StartReading => "AVAssetReader startReading failed".to_owned(),
            TranscodeError::Reading => "AVAssetReader failed".to_owned(),
            TranscodeError::Encode { frame, status } => {
                let number = text::decimal_text(*frame as u64);
                let mut r = text::join3(
                    "VTCompressionSessionEncodeFrame failed at frame ",
                    number.as_str(),
                    ": OSStatus ",
                );
                r.append(text::signed_text(*status).as_str());
                r
            },
            TranscodeError::Complete { status } => text::join2(
                "VTCompressionSessionCompleteFrames failed: OSStatus ",
                text::signed_text(*status).as_str(),
            ),
            TranscodeError::Output { status } => text::join2(
                "encoder produced OSStatus ",
                text::signed_text(*status).as_str(),
            ),
            TranscodeError::NoSamples => "encoder produced no samples".to_owned(),
            TranscodeError::Append { sample } => {
                let number = text::decimal_text(*sample as u64);
                text::join3(
                    "AVAssetWriterInput.appendSampleBuffer at ",
                    number.as_str(),
                    " failed",
                )
            },
            TranscodeError::Finish => "AVAssetWriter finishWriting failed".to_owned(),
            TranscodeError::FinishedFailed =>
                "AVAssetWriter finished with Failed status".to_owned(),
        }
    }
}

/// Whether the encoder has been created: its status is 0 and it is there.
pub fn create_session(status: i32, is_null: bool) -> (r: Result<(), TranscodeError>)
    ensures
        status == 0 && !is_null <==> r is Ok,
        r matches Err(e) ==> e == (TranscodeError::Create { status }),
{
    if status != 0 || is_null {
        Err(TranscodeError::Create { status })
    } else {
        Ok(())
    }
}

/// Whether a property has been set.
pub fn vt_set(name: &'static str, status: i32) -> (r: Result<(), TranscodeError>)
    ensures
        status == 0 <==> r is Ok,
        r matches Err(e) ==> e == (TranscodeError::Property { name, status }),
{
    if status != 0 {
        Err(TranscodeError::Property { name, status })
    } else {
        Ok(())
    }
}

/// What the encoder has handed over: whether it has failed, and with which status first.
#[derive(Debug, Clone, Copy, PartialEq, Eq, Structural)]
pub struct SampleSink {
    pub first_error: i32,
}

impl SampleSink {
    /// Nothing has been handed over.
    pub fn new() -> (r: SampleSink)
        ensures
            r.first_error == 0,
    {
        SampleSink { first_error: 0 }
    }

    /// The encoder hands something over. Whether the sample is kept.
    pub fn output(&mut self, status: i32, has_sample: bool) -> (r: bool)
        ensures
            r == (status == 0 && has_sample),
            final(self).first_error == (if old(self).first_error == 0 {
                status
            } else {
                old(self).first_error
            }),
    {
        if status != 0 {
            if self.first_error == 0 {
                self.first_error = status;
            }
            return false;
        }
        has_sample
    }

    /// Whether there is anything to write: the encoder has not failed and has produced
    /// samples.
    pub fn check(&self, samples: usize) -> (r: Result<(), TranscodeError>)
        ensures
            self.first_error != 0 ==> r == Err::<(), TranscodeError>(
                TranscodeError::Output { status: self.first_error },
            ),
            self.first_error == 0 && samples == 0 ==> r == Err::<(), TranscodeError>(
                TranscodeError::NoSamples,
            ),
            self.first_error == 0 && samples > 0 ==> r is Ok,
    {
        if self.first_error != 0 {
            Err(TranscodeError::Output { status: self.first_error })
        } else if samples == 0 {
            Err(TranscodeError::NoSamples)
        } else {
            Ok(())
        }
    }
}

/// The error that a sink remembers after the encoder has handed these statuses over.
pub open spec fn first_error(statuses: Seq<i32>) -> i32
    decreases statuses.len(),
{
    if statuses.len() == 0 {
        0
    } else if first_error(statuses.drop_last()) == 0 {
        statuses.last()
    } else {
        first_error(statuses.drop_last())
    }
}

/// The first failure of the encoder is the one that is remembered, and none is lost.
pub proof fn first_error_law(statuses: Seq<i32>)
    ensures
        first_error(statuses) == 0 <==> forall|i: int|
            0 <= i < statuses.len() ==> #[trigger] statuses[i] == 0,
        forall|i: int|
            0 <= i < statuses.len() && #[trigger] statuses[i] != 0 && (forall|j: int|
                0 <= j < i ==> #[trigger] statuses[j] == 0) ==> first_error(statuses)
                == statuses[i],
    decreases statuses.len(),
{
    if statuses.len() > 0 {
        let front = statuses.drop_last();
        first_error_law(front);
        assert forall|i: int| 0 <= i < front.len() implies front[i] == statuses[i] by {}
        assert(statuses.last() == statuses[statuses.len() - 1]);
        if forall|i: int| 0 <= i < statuses.len() ==> #[trigger] statuses[i] == 0 {
            assert(first_error(front) == 0);
        }
        if first_error(statuses) == 0 {
            assert(first_error(front) == 0);
        }
        assert forall|i: int|
            0 <= i < statuses.len() && #[trigger] statuses[i] != 0 && (forall|j: int|
                0 <= j < i ==> #[trigger] statuses[j] == 0) implies first_error(statuses)
            == statuses[i] by {
            if i < front.len() {
                assert(front[i] == statuses[i]);
                assert forall|j: int| 0 <= j < i implies #[trigger] front[j] == 0 by {
                    assert(statuses[j] == 0);
                }
                assert(first_error(front) == front[i]);
            } else {
                assert forall|j: int| 0 <= j < front.len() implies #[trigger] front[j] == 0 by {
                    assert(statuses[j] == 0);
                }
            }
        }
    }
}

/// How the reader stands.
#[derive(Debug, Clone, Copy, PartialEq, Eq, Structural)]
pub enum ReaderStatus {
    Reading,
    Failed,
    Other,
}

/// What the encoding waits for.
#[derive(Debug, Clone, Copy, PartialEq, Eq, Structural)]
pub enum EncodePhase {
    Starting,
    Checking,
    Sampling,
    Encoding,
    Ending,
    Completing,
    Over,
}

/// What came of the last action.
#[derive(Debug, Clone, Copy, PartialEq, Eq, Structural)]
pub enum EncodeReply {
    Started(bool),
    Status(ReaderStatus),
    /// There is no further sample.
    NoSample,
    /// The sample holds no image.
    NoImage,
    Image,
    Encoded(i32),
    Completed(i32),
}

/// What is to be done next.
#[derive(Debug, Clone, Copy)]
pub enum EncodeAction {
    /// Tell how the reader stands.
    AskStatus,
    /// Copy the next sample from the reader.
    CopySample,
    /// Hand the image to the encoder.
    EncodeFrame,
    /// Let the encoder complete its frames.
    CompleteFrames,
    /// So many frames have been encoded.
    Done(usize),
    Fail(TranscodeError),
}

/// The encoding of all frames, step by step.
#[derive(Debug, Clone, Copy, PartialEq, Eq, Structural)]
pub struct Encoder {
    /// The frames that the encoder has taken.
    pub count: usize,
    pub phase: EncodePhase,
}

/// The reply answers what the encoding waits for.
pub open spec fn encode_fits(phase: EncodePhase, reply: EncodeReply) -> bool {
    match phase {
        EncodePhase::Starting => reply is Started,
        EncodePhase::Checking => reply is Status,
        EncodePhase::Sampling => reply is NoSample || reply is NoImage || reply is Image,
        EncodePhase::Encoding => reply is Encoded,
        EncodePhase::Ending => reply is Status,
        EncodePhase::Completing => reply is Completed,
        EncodePhase::Over => false,
    }
}

/// One step of the encoding.
pub open spec fn encode_step(e: Encoder, reply: EncodeReply) -> (Encoder, EncodeAction) {
    match (e.phase, reply) {
        (EncodePhase::Starting, EncodeReply::Started(ok)) => if ok {
            (Encoder { phase: EncodePhase::Checking, ..e }, EncodeAction::AskStatus)
        } else {
            (
                Encoder { phase: EncodePhase::Over, ..e },
                EncodeAction::Fail(TranscodeError::StartReading),
            )
        },
        (EncodePhase::Checking, EncodeReply::Status(status)) => if status
            == ReaderStatus::Reading {
            (Encoder { phase: EncodePhase::Sampling, ..e }, EncodeAction::CopySample)
        } else {
            (Encoder { phase: EncodePhase::Ending, ..e }, EncodeAction::AskStatus)
        },
        (EncodePhase::Sampling, EncodeReply::NoSample) => (
            Encoder { phase: EncodePhase::Ending, ..e },
            EncodeAction::AskStatus,
        ),
        (EncodePhase::Sampling, EncodeReply::NoImage) => (
            Encoder { phase: EncodePhase::Checking, ..e },
            EncodeAction::AskStatus,
        ),
        (EncodePhase::Sampling, EncodeReply::Image) => (
            Encoder { phase: EncodePhase::Encoding, ..e },
            EncodeAction::EncodeFrame,
        ),
        (EncodePhase::Encoding, EncodeReply::Encoded(status)) => if status != 0 {
            (
                Encoder { phase: EncodePhase::Over, ..e },
                EncodeAction::Fail(TranscodeError::Encode { frame: e.count, status }),
            )
        } else {
            (
                Encoder { count: (e.count + 1) as usize, phase: EncodePhase::Checking },
                EncodeAction::AskStatus,
            )
        },
        (EncodePhase::Ending, EncodeReply::Status(status)) => if status == ReaderStatus::Failed {
            (
                Encoder { phase: EncodePhase::Over, ..e },
                EncodeAction::Fail(TranscodeError::Reading),
            )
        } else {
            (Encoder { phase: EncodePhase::Completing, ..e }, EncodeAction::CompleteFrames)
        },
        (EncodePhase::Completing, EncodeReply::Completed(status)) => if status != 0 {
            (
                Encoder { phase: EncodePhase::Over, ..e },
                EncodeAction::Fail(TranscodeError::Complete { status }),
            )
        } else {
            (Encoder { phase: EncodePhase::Over, ..e }, EncodeAction::Done(e.count))
        },
        _ => (e, EncodeAction::AskStatus),
    }
}

impl Encoder {
    /// The reader is to be started.
    pub fn new() -> (r: Encoder)
        ensures
            r == (Encoder { count: 0, phase: EncodePhase::Starting }),
    {
        Encoder { count: 0, phase: EncodePhase::Starting }
    }

    /// Takes what came of the last action, and says what is to be done next.
    pub fn step(&mut self, reply: EncodeReply) -> (r: EncodeAction)
        requires
            encode_fits(old(self).phase, reply),
            reply == EncodeReply::Encoded(0) ==> old(self).count < usize::MAX,
        ensures
            (*final(self), r) == encode_step(*old(self), reply),
    {
        match (self.phase, reply) {
            (EncodePhase::Starting, EncodeReply::Started(ok)) => if ok {
                self.phase = EncodePhase::Checking;
                EncodeAction::AskStatus
            } else {
                self.phase = EncodePhase::Over;
                EncodeAction::Fail(TranscodeError::StartReading)
            },
            (EncodePhase::Checking, EncodeReply::Status(status)) => if status
                == ReaderStatus::Reading {
                self.phase = EncodePhase::Sampling;
                EncodeAction::CopySample
            } else {
                self.phase = EncodePhase::Ending;
                EncodeAction::AskStatus
            },
            (EncodePhase::Sampling, EncodeReply::NoSample) => {
                self.phase = EncodePhase::Ending;
                EncodeAction::AskStatus
            },
            (EncodePhase::Sampling, EncodeReply::NoImage) => {
                self.phase = EncodePhase::Checking;
                EncodeAction::AskStatus
            },
            (EncodePhase::Sampling, EncodeReply::Image) => {
                self.phase = EncodePhase::Encoding;
                EncodeAction::EncodeFrame
            },
            (EncodePhase::Encoding, EncodeReply::Encoded(status)) => if status != 0 {
                self.phase = EncodePhase::Over;
                EncodeAction::Fail(TranscodeError::Encode { frame: self.count, status })
            } else {
                self.count = self.count + 1;
                self.phase = EncodePhase::Checking;
                EncodeAction::AskStatus
            },
            (EncodePhase::Ending, EncodeReply::Status(status)) => if status
                == ReaderStatus::Failed {
                self.phase = EncodePhase::Over;
                EncodeAction::Fail(TranscodeError::Reading)
            } else {
                self.phase = EncodePhase::Completing;
                EncodeAction::CompleteFrames
            },
            (EncodePhase::Completing, EncodeReply::Completed(status)) => if status != 0 {
                self.phase = EncodePhase::Over;
                EncodeAction::Fail(TranscodeError::Complete { status })
            } else {
                self.phase = EncodePhase::Over;
                EncodeAction::Done(self.count)
            },
            _ => EncodeAction::AskStatus,
        }
    }

    /// What the log says of the progress: something every 60 frames.
    pub fn progress(&self) -> (r: Option<String>)
        ensures
            match r {
                Some(line) => self.count % 60 == 0 && line@ == "encoding... "@ + text::decimal(
                    self.count as nat,
                ) + " frames"@,
                None => self.count % 60 != 0,
            },
    {
        if self.count % 60 == 0 {
            let number = text::decimal_text(self.count as u64);
            Some(text::join3("encoding... ", number.as_str(), " frames"))
        } else {
            None
        }
    }
}

/// The encoding after these replies.
pub open spec fn encoded(replies: Seq<EncodeReply>) -> Encoder
    decreases replies.len(),
{
    if replies.len() == 0 {
        Encoder { count: 0, phase: EncodePhase::Starting }
    } else {
        encode_step(encoded(replies.drop_last()), replies.last()).0
    }
}

/// The replies that tell of a frame taken.
pub open spec fn frames_taken(replies: Seq<EncodeReply>) -> nat
    decreases replies.len(),
{
    if replies.len() == 0 {
        0
    } else if replies.last() == EncodeReply::Encoded(0) {
        frames_taken(replies.drop_last()) + 1
    } else {
        frames_taken(replies.drop_last())
    }
}

/// Each reply answers what the encoding waited for.
pub open spec fn encode_run(replies: Seq<EncodeReply>) -> bool {
    forall|i: int|
        0 <= i < replies.len() ==> encode_fits(
            (#[trigger] encoded(replies.take(i))).phase,
            replies[i],
        )
}

/// The count is that of the frames that the encoder has taken, no more and no fewer.
pub proof fn encode_law(replies: Seq<EncodeReply>)
    requires
        encode_run(replies),
        replies.len() <= usize::MAX,
    ensures
        encoded(replies).count == frames_taken(replies) <= replies.len(),
    decreases replies.len(),
{
    if replies.len() > 0 {
        let front = replies.drop_last();
        assert forall|i: int| 0 <= i < front.len() implies encode_fits(
            (#[trigger] encoded(front.take(i))).phase,
            front[i],
        ) by {
            assert(front.take(i) =~= replies.take(i));
            assert(encode_fits(encoded(replies.take(i)).phase, replies[i]));
        }
        encode_law(front);
        assert(replies.take(replies.len() - 1) =~= front);
        assert(encode_fits(encoded(front).phase, replies.last()));
    }
}

/// The action that is handed out on the last of these replies.
pub open spec fn encode_action(replies: Seq<EncodeReply>) -> EncodeAction {
    encode_step(encoded(replies.drop_last()), replies.last()).1
}

/// The reply leads on to the next sample: the reader has started, the encoder has taken a
/// frame, or a sample held no image.
pub open spec fn leads_on(reply: EncodeReply) -> bool {
    reply == EncodeReply::Started(true) || reply == EncodeReply::Encoded(0) || reply
        == EncodeReply::NoImage
}

/// The whole encoding, told by the replies alone and whatever their number. While the reader
/// reads, every frame taken is followed by the question how the reader stands and then by
/// the next sample. The frames are completed only when the samples are at an end, or the
/// reader has stopped reading, and it has not failed by then. The run is done with as many
/// frames as were taken, and each failure is told with its status and, for a frame, with the
/// number of frames taken before.
pub proof fn encode_run_law(replies: Seq<EncodeReply>)
    requires
        encode_run(replies),
        0 < replies.len() <= usize::MAX,
    ensures
        ({
            let action = encode_action(replies);
            let last = replies.last();
            let before = replies[replies.len() - 2];
            &&& leads_on(last) ==> action == EncodeAction::AskStatus
            &&& last == EncodeReply::Started(false) ==> action == EncodeAction::Fail(
                TranscodeError::StartReading,
            )
            &&& last is Status && leads_on(before) ==> action == (if last->Status_0
                == ReaderStatus::Reading {
                EncodeAction::CopySample
            } else {
                EncodeAction::AskStatus
            })
            &&& last is Status && !leads_on(before) ==> action == (if last->Status_0
                == ReaderStatus::Failed {
                EncodeAction::Fail(TranscodeError::Reading)
            } else {
                EncodeAction::CompleteFrames
            })
            &&& last is Status ==> leads_on(before) || before == EncodeReply::NoSample || before
                == EncodeReply::Status(ReaderStatus::Failed) || before == EncodeReply::Status(
                ReaderStatus::Other,
            )
            &&& last == EncodeReply::NoSample ==> action == EncodeAction::AskStatus
            &&& last == EncodeReply::Image ==> action == EncodeAction::EncodeFrame
            &&& last is Encoded && last->Encoded_0 != 0 ==> action == EncodeAction::Fail(
                TranscodeError::Encode {
                    frame: frames_taken(replies) as usize,
                    status: last->Encoded_0,
                },
            )
            &&& last is Completed && last->Completed_0 != 0 ==> action == EncodeAction::Fail(
                TranscodeError::Complete { status: last->Completed_0 },
            )
            &&& last == EncodeReply::Completed(0) ==> action == EncodeAction::Done(
                frames_taken(replies) as usize,
            )
            &&& action is CompleteFrames ==> last is Status && (before == EncodeReply::NoSample
                || before == EncodeReply::Status(ReaderStatus::Failed) || before
                == EncodeReply::Status(ReaderStatus::Other))
        }),
{
    let n = replies.len() as int;
    let front = replies.drop_last();
    encode_law(replies);
    assert(replies.take(n - 1) =~= front);
    assert(encode_fits(encoded(replies.take(n - 1)).phase, replies[n - 1]));
    if n >= 2 {
        assert(front.drop_last() =~= replies.take(n - 2));
        assert(encode_fits(encoded(replies.take(n - 2)).phase, replies[n - 2]));
        assert(front.last() == replies[n - 2]);
        assert(encoded(front) == encode_step(encoded(replies.take(n - 2)), replies[n - 2]).0);
    }
}

/// The number of frames plays no part in where the encoding goes: two encodings that wait
/// for the same thing and differ in their counts alone go on in the same way.
pub proof fn encode_count_law(e: Encoder, count: usize, reply: EncodeReply)
    requires
        encode_fits(e.phase, reply),
    ensures
        ({
            let (f, action) = encode_step(e, reply);
            let (g, other) = encode_step(Encoder { count, ..e }, reply);
            &&& f.phase == g.phase
            &&& action is AskStatus <==> other is AskStatus
            &&& action is CopySample <==> other is CopySample
            &&& action is EncodeFrame <==> other is EncodeFrame
            &&& action is CompleteFrames <==> other is CompleteFrames
            &&& action is Done <==> other is Done
            &&& action is Fail <==> other is Fail
        }),
{
}

/// What the writing waits for.
#[derive(Debug, Clone, Copy, PartialEq, Eq, Structural)]
pub enum WritePhase {
    Asking,
    Appending,
    Waiting,
    Over,
}

/// What came of the last action.
#[derive(Debug, Clone, Copy, PartialEq, Eq, Structural)]
pub enum WriteReply {
    Ready(bool),
    Appended(bool),
    Waited,
}

/// What is to be done next.
#[derive(Debug, Clone, Copy)]
pub enum WriteAction {
    /// Tell whether the writer takes more.
    AskReady,
    /// Append the sample of this number.
    Append(usize),
    /// Wait so many milliseconds.
    Wait(u64),
    /// All samples are appended, so many: finish the file.
    Finish(usize),
    Fail(TranscodeError),
}

/// The writing of all samples, step by step.
#[derive(Debug, Clone, Copy, PartialEq, Eq, Structural)]
pub struct Writer {
    pub total: usize,
    /// The samples that are appended.
    pub appended: usize,
    pub phase: WritePhase,
}

/// The reply answers what the writing waits for.
pub open spec fn write_fits(phase: WritePhase, reply: WriteReply) -> bool {
    match phase {
        WritePhase::Asking => reply is Ready,
        WritePhase::Appending => reply is Appended,
        WritePhase::Waiting => reply is Waited,
        WritePhase::Over => false,
    }
}

/// What follows when nothing is under way: the next sample, or the end.
pub open spec fn write_next(w: Writer) -> (Writer, WriteAction) {
    if w.appended < w.total {
        (Writer { phase: WritePhase::Asking, ..w }, WriteAction::AskReady)
    } else {
        (Writer { phase: WritePhase::Over, ..w }, WriteAction::Finish(w.appended))
    }
}

/// One step of the writing.
pub open spec fn write_step(w: Writer, reply: WriteReply) -> (Writer, WriteAction) {
    match (w.phase, reply) {
        (WritePhase::Asking, WriteReply::Ready(ready)) => if ready {
            (Writer { phase: WritePhase::Appending, ..w }, WriteAction::Append(w.appended))
        } else {
            (Writer { phase: WritePhase::Waiting, ..w }, WriteAction::Wait(WRITER_WAIT_MILLIS))
        },
        (WritePhase::Appending, WriteReply::Appended(ok)) => if ok {
            write_next(Writer { appended: (w.appended + 1) as usize, ..w })
        } else {
            (
                Writer { phase: WritePhase::Over, ..w },
                WriteAction::Fail(TranscodeError::Append { sample: w.appended }),
            )
        },
        _ => write_next(w),
    }
}

impl Writer {
    /// What holds between steps.
    pub open spec fn wf(self) -> bool {
        &&& self.appended <= self.total
        &&& self.phase != WritePhase::Over ==> self.appended < self.total
    }

    /// The writing of so many samples, at least one.
    pub fn new(total: usize) -> (r: Writer)
        requires
            total > 0,
        ensures
            r == (Writer { total, appended: 0, phase: WritePhase::Asking }),
            r.wf(),
    {
        Writer { total, appended: 0, phase: WritePhase::Asking }
    }

    /// What follows when nothing is under way.
    fn next(&mut self) -> (r: WriteAction)
        requires
            old(self).appended <= old(self).total,
        ensures
            (*final(self), r) == write_next(*old(self)),
            final(self).wf(),
    {
        if self.appended < self.total {
            self.phase = WritePhase::Asking;
            WriteAction::AskReady
        } else {
            self.phase = WritePhase::Over;
            WriteAction::Finish(self.appended)
        }
    }

    /// Takes what came of the last action, and says what is to be done next.
    pub fn step(&mut self, reply: WriteReply) -> (r: WriteAction)
        requires
            old(self).wf(),
            write_fits(old(self).phase, reply),
        ensures
            (*final(self), r) == write_step(*old(self), reply),
            final(self).wf(),
            r matches WriteAction::Append(sample) ==> sample == old(self).appended && sample < old(
                self,
            ).total,
            r matches WriteAction::Finish(n) ==> n == old(self).total,
    {
        match (self.phase, reply) {
            (WritePhase::Asking, WriteReply::Ready(ready)) => if ready {
                self.phase = WritePhase::Appending;
                WriteAction::Append(self.appended)
            } else {
                self.phase = WritePhase::Waiting;
                WriteAction::Wait(WRITER_WAIT_MILLIS)
            },
            (WritePhase::Appending, WriteReply::Appended(ok)) => if ok {
                self.appended = self.appended + 1;
                self.next()
            } else {
                self.phase = WritePhase::Over;
                WriteAction::Fail(TranscodeError::Append { sample: self.appended })
            },
            _ => self.next(),
        }
    }
}

/// The samples go to the file in order, each once: a sample is appended only after all before
/// it have been, the number grows by one with each, and the file is finished only with all of
/// them.
pub proof fn write_law(w: Writer, reply: WriteReply)
    requires
        w.wf(),
        write_fits(w.phase, reply),
    ensures
        ({
            let (v, action) = write_step(w, reply);
            &&& action matches WriteAction::Append(sample) ==> sample == w.appended < w.total
            &&& v.appended == (if reply == WriteReply::Appended(true) {
                w.appended + 1
            } else {
                w.appended as int
            })
            &&& action matches WriteAction::Finish(n) ==> n == w.total
            &&& v.total == w.total
        }),
{
}

/// What each reply brings about. A writer that takes more gets the next sample; one that does
/// not is asked again five milliseconds later. A sample appended is followed by the question
/// for the next or, behind the last, by the end of the file; one that was refused ends the
/// writing with its number.
pub proof fn write_reply_law(w: Writer, reply: WriteReply)
    requires
        w.wf(),
        write_fits(w.phase, reply),
    ensures
        ({
            let (v, action) = write_step(w, reply);
            &&& match reply {
                WriteReply::Ready(ready) => action == if ready {
                    WriteAction::Append(w.appended)
                } else {
                    WriteAction::Wait(5)
                },
                WriteReply::Waited => action == WriteAction::AskReady,
                WriteReply::Appended(ok) => action == if !ok {
                    WriteAction::Fail(TranscodeError::Append { sample: w.appended })
                } else if w.appended + 1 < w.total {
                    WriteAction::AskReady
                } else {
                    WriteAction::Finish(w.total)
                },
            }
            &&& action is AskReady ==> v.phase == WritePhase::Asking
            &&& action is Append ==> v.phase == WritePhase::Appending
            &&& action is Wait ==> v.phase == WritePhase::Waiting
            &&& action is Finish || action is Fail <==> v.phase == WritePhase::Over
        }),
{
}

/// Whether the file is finished.
pub fn finish_writing(finished: bool, failed: bool) -> (r: Result<(), TranscodeError>)
    ensures
        !finished ==> r == Err::<(), TranscodeError>(TranscodeError::Finish),
        finished && failed ==> r == Err::<(), TranscodeError>(TranscodeError::FinishedFailed),
        finished && !failed ==> r is Ok,
{
    if !finished {
        Err(TranscodeError::Finish)
    } else if failed {
        Err(TranscodeError::FinishedFailed)
    } else {
        Ok(())
    }
}

/// The encoding takes every answer to what it asked for: any status of the reader and of the
/// encoder, a sample with or without an image, or none.
pub proof fn encode_accepts_law(e: Encoder, ok: bool, status: ReaderStatus, code: i32)
    ensures
        e.phase == EncodePhase::Starting ==> encode_fits(e.phase, EncodeReply::Started(ok)),
        e.phase == EncodePhase::Checking || e.phase == EncodePhase::Ending ==> encode_fits(
            e.phase,
            EncodeReply::Status(status),
        ),
        e.phase == EncodePhase::Sampling ==> encode_fits(e.phase, EncodeReply::NoSample)
            && encode_fits(e.phase, EncodeReply::NoImage) && encode_fits(
            e.phase,
            EncodeReply::Image,
        ),
        e.phase == EncodePhase::Encoding ==> encode_fits(e.phase, EncodeReply::Encoded(code)),
        e.phase == EncodePhase::Completing ==> encode_fits(e.phase, EncodeReply::Completed(code)),
        ({
            let action = encode_step(e, EncodeReply::Status(status)).1;
            e.phase == EncodePhase::Checking || e.phase == EncodePhase::Ending ==> !(action is Done)
        }),
{
}

/// The writing takes every answer to what it asked for.
pub proof fn write_accepts_law(w: Writer, b: bool)
    ensures
        w.phase == WritePhase::Asking ==> write_fits(w.phase, WriteReply::Ready(b)),
        w.phase == WritePhase::Appending ==> write_fits(w.phase, WriteReply::Appended(b)),
        w.phase == WritePhase::Waiting ==> write_fits(w.phase, WriteReply::Waited),
{
}

/// The settings of the encoder agree with each other: the most frames between key frames are
/// those of the most seconds, and the base layer has its even share of the frames.
pub proof fn settings_law(r: Vec<Property>)
    requires
        call_ensures(configure_session, (), r),
    ensures
        ({
            let set = property_texts(r@);
            &&& set.len() == 9
            &&& set[0] == ("ProfileLevel"@, PropertyValue::Main10)
            &&& set[1] == ("AverageBitRate"@, PropertyValue::Int(15_000_000))
            &&& set[2] == ("ExpectedFrameRate"@, PropertyValue::Int(60))
            &&& set[3].0 == "MaxKeyFrameInterval"@ && set[4].0 == "MaxKeyFrameIntervalDuration"@
            &&& set[3].1 is Int && set[4].1 is Real
            &&& set[3].1->Int_0 == set[2].1->Int_0 * set[4].1->Real_0
            &&& set[5] == ("RealTime"@, PropertyValue::False)
            &&& set[6] == ("AllowFrameReordering"@, PropertyValue::False)
            &&& set[7].0 == "NumberOfTemporalLayers"@ && set[8].0 == "BaseLayerFrameRate"@
            &&& set[7].1 is Int && set[8].1 is Real
            &&& set[7].1->Int_0 >= 2
            &&& set[8].1->Real_0 * set[7].1->Int_0 == set[2].1->Int_0
        }),
{
}

/// An encoder is there exactly when its status is 0 and it is not null, and a property is set
/// exactly when its status is 0; else the error tells the status, and the property.
pub proof fn status_law(
    status: i32,
    is_null: bool,
    name: &'static str,
    created: Result<(), TranscodeError>,
    set: Result<(), TranscodeError>,
)
    requires
        call_ensures(create_session, (status, is_null), created),
        call_ensures(vt_set, (name, status), set),
    ensures
        created is Ok <==> status == 0 && !is_null,
        created matches Err(e) ==> e == (TranscodeError::Create { status }),
        set is Ok <==> status == 0,
        set matches Err(e) ==> e == (TranscodeError::Property { name, status }),
{
}

/// What was encoded is written exactly when the encoder has not failed and there is a sample.
/// A failure comes before the lack of samples, and is told with its status.
pub proof fn check_law(sink: SampleSink, samples: usize, r: Result<(), TranscodeError>)
    requires
        call_ensures(SampleSink::check, (&sink, samples), r),
    ensures
        r is Ok <==> sink.first_error == 0 && samples > 0,
        r matches Err(e) ==> e == if sink.first_error != 0 {
            TranscodeError::Output { status: sink.first_error }
        } else {
            TranscodeError::NoSamples
        },
{
}

/// A file is there exactly when the writer has finished it and has not failed.
pub proof fn finish_law(finished: bool, failed: bool, r: Result<(), TranscodeError>)
    requires
        call_ensures(finish_writing, (finished, failed), r),
    ensures
        r is Ok <==> finished && !failed,
        r matches Err(e) ==> e == if finished {
            TranscodeError::FinishedFailed
        } else {
            TranscodeError::Finish
        },
{
}

/// The messages tell every number that the error has: the status with its sign, and the number
/// of the frame or of the sample.
pub proof fn message_law(name: &'static str, status: i32, n: usize)
    ensures
        name@ != "NumberOfTemporalLayers"@ ==> (TranscodeError::Property { name, status }).text()
            == "VTSessionSetProperty("@ + name@ + ") failed: OSStatus "@ + text::signed_decimal(
            status as int,
        ),
        name@ == "NumberOfTemporalLayers"@ ==> (TranscodeError::Property { name, status }).text()
            == name@ + " failed: OSStatus "@ + text::signed_decimal(status as int),
        (TranscodeError::Create { status }).text()
            == "VTCompressionSessionCreate failed: OSStatus "@ + text::signed_decimal(
            status as int,
        ),
        (TranscodeError::Encode { frame: n, status }).text()
            == "VTCompressionSessionEncodeFrame failed at frame "@ + text::decimal(n as nat)
            + ": OSStatus "@ + text::signed_decimal(status as int),
        (TranscodeError::Complete { status }).text()
            == "VTCompressionSessionCompleteFrames failed: OSStatus "@ + text::signed_decimal(
            status as int,
        ),
        (TranscodeError::Output { status }).text() == "encoder produced OSStatus "@
            + text::signed_decimal(status as int),
        (TranscodeError::Append { sample: n }).text()
            == "AVAssetWriterInput.appendSampleBuffer at "@ + text::decimal(n as nat) + " failed"@,
{
    reveal_strlit("NumberOfTemporalLayers failed: OSStatus ");
    reveal_strlit("NumberOfTemporalLayers");
    reveal_strlit(" failed: OSStatus ");
    let number = text::signed_decimal(status as int);
    assert("NumberOfTemporalLayers failed: OSStatus "@ + number =~= "NumberOfTemporalLayers"@
        + " failed: OSStatus "@ + number);
}

/// What the encoder hands over: a sample is kept exactly when it is there and its status is 0.
/// The sink remembers the first status that is not 0, and forgets it never.
pub proof fn output_law(sink: &mut SampleSink, status: i32, has_sample: bool, kept: bool)
    requires
        call_ensures(SampleSink::output, (sink, status, has_sample), kept),
    ensures
        kept <==> status == 0 && has_sample,
        old(sink).first_error != 0 ==> final(sink).first_error == old(sink).first_error,
        old(sink).first_error == 0 ==> final(sink).first_error == status,
{
}

/// The log tells of every 60th frame, and of no other, by its number.
pub proof fn progress_law(e: Encoder, r: Option<String>)
    requires
        call_ensures(Encoder::progress, (&e,), r),
    ensures
        r is Some <==> e.count % 60 == 0,
        r matches Some(line) ==> line@ == "encoding... "@ + text::decimal(e.count as nat)
            + " frames"@,
{
}

} // verus!
