use phonto::macos_live_lockscreen::transcode::{
    configure_session, create_session, finish_writing, vt_set, EncodeAction, EncodeReply, Encoder,
    PropertyValue, ReaderStatus, SampleSink, TranscodeError, WriteAction, WriteReply, Writer,
};

#[test]
fn the_encoder_is_set_up() {
    let set: Vec<(&str, PropertyValue)> =
        configure_session().iter().map(|p| (p.name, p.value)).collect();
    assert_eq!(
        set,
        vec![
            ("ProfileLevel", PropertyValue::Main10),
            ("AverageBitRate", PropertyValue::Int(15_000_000)),
            ("ExpectedFrameRate", PropertyValue::Int(60)),
            ("MaxKeyFrameInterval", PropertyValue::Int(120)),
            ("MaxKeyFrameIntervalDuration", PropertyValue::Real(2)),
            ("RealTime", PropertyValue::False),
            ("AllowFrameReordering", PropertyValue::False),
            ("NumberOfTemporalLayers", PropertyValue::Int(2)),
            ("BaseLayerFrameRate", PropertyValue::Real(30)),
        ]
    );
}

#[test]
fn statuses_become_messages() {
    assert!(vt_set("RealTime", 0).is_ok());
    assert_eq!(
        vt_set("RealTime", -12900).unwrap_err().message(),
        "VTSessionSetProperty(RealTime) failed: OSStatus -12900"
    );
    assert_eq!(
        vt_set("NumberOfTemporalLayers", -1).unwrap_err().message(),
        "NumberOfTemporalLayers failed: OSStatus -1"
    );
    assert!(create_session(0, false).is_ok());
    assert_eq!(
        create_session(0, true).unwrap_err().message(),
        "VTCompressionSessionCreate failed: OSStatus 0"
    );
    assert!(create_session(-1, false).is_err());
    assert!(finish_writing(true, false).is_ok());
    assert_eq!(
        finish_writing(false, true).unwrap_err().message(),
        "AVAssetWriter finishWriting failed"
    );
    assert_eq!(
        finish_writing(true, true).unwrap_err().message(),
        "AVAssetWriter finished with Failed status"
    );
}

#[test]
fn the_first_failure_of_the_encoder_counts() {
    let mut sink = SampleSink::new();
    assert!(sink.output(0, true));
    assert!(!sink.output(0, false));
    assert!(sink.check(1).is_ok());
    assert_eq!(sink.check(0).unwrap_err().message(), "encoder produced no samples");
    assert!(!sink.output(-5, true));
    assert!(!sink.output(-6, true));
    assert!(sink.output(0, true));
    assert_eq!(sink.check(3).unwrap_err().message(), "encoder produced OSStatus -5");
}

fn reading(e: &mut Encoder) {
    assert!(matches!(
        e.step(EncodeReply::Status(ReaderStatus::Reading)),
        EncodeAction::CopySample
    ));
}

#[test]
fn all_frames_are_encoded() {
    let mut e = Encoder::new();
    assert!(matches!(e.step(EncodeReply::Started(true)), EncodeAction::AskStatus));
    reading(&mut e);
    assert!(matches!(e.step(EncodeReply::Image), EncodeAction::EncodeFrame));
    assert!(matches!(e.step(EncodeReply::Encoded(0)), EncodeAction::AskStatus));
    reading(&mut e);
    assert!(matches!(e.step(EncodeReply::NoImage), EncodeAction::AskStatus));
    reading(&mut e);
    assert!(matches!(e.step(EncodeReply::NoSample), EncodeAction::AskStatus));
    assert!(matches!(
        e.step(EncodeReply::Status(ReaderStatus::Other)),
        EncodeAction::CompleteFrames
    ));
    assert!(matches!(e.step(EncodeReply::Completed(0)), EncodeAction::Done(1)));
}

#[test]
fn encoding_may_fail() {
    let mut e = Encoder::new();
    assert!(matches!(
        e.step(EncodeReply::Started(false)),
        EncodeAction::Fail(TranscodeError::StartReading)
    ));
    let mut e = Encoder::new();
    e.step(EncodeReply::Started(true));
    reading(&mut e);
    e.step(EncodeReply::Image);
    match e.step(EncodeReply::Encoded(-3)) {
        EncodeAction::Fail(f) => assert_eq!(
            f.message(),
            "VTCompressionSessionEncodeFrame failed at frame 0: OSStatus -3"
        ),
        other => panic!("{other:?}"),
    }
    let mut e = Encoder::new();
    e.step(EncodeReply::Started(true));
    e.step(EncodeReply::Status(ReaderStatus::Failed));
    match e.step(EncodeReply::Status(ReaderStatus::Failed)) {
        EncodeAction::Fail(f) => assert_eq!(f.message(), "AVAssetReader failed"),
        other => panic!("{other:?}"),
    }
    let mut e = Encoder::new();
    e.step(EncodeReply::Started(true));
    e.step(EncodeReply::Status(ReaderStatus::Other));
    e.step(EncodeReply::Status(ReaderStatus::Other));
    match e.step(EncodeReply::Completed(9)) {
        EncodeAction::Fail(f) => {
            assert_eq!(f.message(), "VTCompressionSessionCompleteFrames failed: OSStatus 9")
        }
        other => panic!("{other:?}"),
    }
    assert_eq!(TranscodeError::StartReading.message(), "AVAssetReader startReading failed");
}

#[test]
fn progress_is_told_every_sixty_frames() {
    let mut e = Encoder::new();
    e.count = 120;
    assert_eq!(e.progress().as_deref(), Some("encoding... 120 frames"));
    e.count = 121;
    assert_eq!(e.progress(), None);
}

#[test]
fn samples_are_written_in_order() {
    let mut w = Writer::new(2);
    assert!(matches!(w.step(WriteReply::Ready(false)), WriteAction::Wait(5)));
    assert!(matches!(w.step(WriteReply::Waited), WriteAction::AskReady));
    assert!(matches!(w.step(WriteReply::Ready(true)), WriteAction::Append(0)));
    assert!(matches!(w.step(WriteReply::Appended(true)), WriteAction::AskReady));
    assert!(matches!(w.step(WriteReply::Ready(true)), WriteAction::Append(1)));
    assert!(matches!(w.step(WriteReply::Appended(true)), WriteAction::Finish(2)));
}

#[test]
fn a_sample_may_be_refused() {
    let mut w = Writer::new(1);
    w.step(WriteReply::Ready(true));
    match w.step(WriteReply::Appended(false)) {
        WriteAction::Fail(f) => {
            assert_eq!(f.message(), "AVAssetWriterInput.appendSampleBuffer at 0 failed")
        }
        other => panic!("{other:?}"),
    }
}
