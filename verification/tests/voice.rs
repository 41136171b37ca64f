use discord_bot::music_bot::{
    next, notice_message, sends_reply, Action, Command, Event, Notice, NoticeMessage, Op, PlayState, Question,
};

/// Runs `command`, answering each action from `answers` in turn, and returns
/// the actions it took.
fn run(command: Command, answers: &[Event]) -> Vec<Action> {
    let mut actions = Vec::new();
    let mut last: Option<Action> = None;
    let mut event = Event::Begin;
    let mut replies = answers.iter();
    loop {
        let action = next(&command, &last, &event);
        actions.push(action);
        if let Action::Finish(_) = action {
            return actions;
        }
        event = *replies.next().unwrap_or(&Event::Succeeded);
        last = Some(action);
    }
}

#[test]
fn commands_without_connection_reply_not_in_voice() {
    for command in [Command::Play, Command::Stop, Command::Pause, Command::Resume, Command::Skip, Command::SkipShowingQueue, Command::ToLoop, Command::ToLoopBlank, Command::EndLoop, Command::EndLoopBlank, Command::Seek, Command::Enqueue] {
        assert_eq!(
            run(command, &[Event::Answer(false), Event::Succeeded]),
            vec![Action::Ask(Question::Handler), Action::Tell(Notice::NotInVoice), Action::Finish(true)]
        );
    }
    for command in [Command::Join, Command::JoinQuietly] {
        assert_eq!(
            run(command, &[Event::Answer(false)]),
            vec![Action::Ask(Question::VoiceChannel), Action::Tell(Notice::NotInVoice), Action::Finish(true)]
        );
    }
    assert_eq!(run(Command::Leave, &[Event::Answer(false)]), vec![Action::Ask(Question::Handler), Action::Finish(true)]);
}

#[test]
fn skip_removes_the_skipped_track_and_plays_the_next() {
    assert_eq!(
        run(Command::Skip, &[Event::Answer(true), Event::Succeeded, Event::Succeeded, Event::Answer(true), Event::Succeeded]),
        vec![
            Action::Ask(Question::Handler),
            Action::Do(Op::SkipQueue),
            Action::Do(Op::RemoveSkipped),
            Action::Ask(Question::CurrentTrack),
            Action::Do(Op::PlayCurrent),
            Action::Finish(true),
        ]
    );
}

#[test]
fn failed_skip_ends_with_the_failure() {
    assert_eq!(
        run(Command::Skip, &[Event::Answer(true), Event::Failed]),
        vec![Action::Ask(Question::Handler), Action::Do(Op::SkipQueue), Action::Finish(false)]
    );
}

#[test]
fn resume_without_track_says_so() {
    assert_eq!(
        run(Command::Resume, &[Event::Answer(true), Event::Answer(false)]),
        vec![
            Action::Ask(Question::Handler),
            Action::Ask(Question::CurrentTrack),
            Action::Tell(Notice::NoMoreTracks),
            Action::Finish(true),
        ]
    );
}

#[test]
fn loop_that_cannot_be_enabled() {
    assert_eq!(
        run(Command::ToLoop, &[Event::Answer(true), Event::Answer(true), Event::Failed]),
        vec![
            Action::Ask(Question::Handler),
            Action::Ask(Question::CurrentTrack),
            Action::Do(Op::EnableLoop),
            Action::LogFailure(Op::EnableLoop),
            Action::Tell(Notice::LoopUnsupported),
            Action::Finish(true),
        ]
    );
}

#[test]
fn leaving_after_a_failed_disconnect_still_says_disconnected() {
    assert_eq!(
        run(Command::Leave, &[Event::Answer(true), Event::Failed]),
        vec![
            Action::Ask(Question::Handler),
            Action::Do(Op::Disconnect),
            Action::Tell(Notice::DisconnectFailed),
            Action::Tell(Notice::Disconnected),
            Action::Finish(true),
        ]
    );
}

#[test]
fn enqueue_drops_a_paused_track() {
    assert_eq!(
        run(Command::Enqueue, &[Event::Answer(true), Event::Answer(true), Event::Answer(true), Event::State(PlayState::Paused)]),
        vec![
            Action::Ask(Question::Handler),
            Action::Ask(Question::QueueRequest),
            Action::Ask(Question::CurrentTrack),
            Action::Ask(Question::PlayState),
            Action::Do(Op::DropPaused),
            Action::Finish(true),
        ]
    );
}

#[test]
fn seek_out_of_range() {
    assert_eq!(
        run(Command::Seek, &[Event::Answer(true), Event::Answer(true), Event::Failed]),
        vec![
            Action::Ask(Question::Handler),
            Action::Ask(Question::CurrentTrack),
            Action::Do(Op::SeekCurrent),
            Action::Tell(Notice::SeekOutOfRange),
            Action::Finish(true),
        ]
    );
}

#[test]
fn unexpected_events_end_with_failure() {
    assert_eq!(next(&Command::Stop, &None, &Event::Succeeded), Action::Finish(false));
    assert_eq!(next(&Command::Stop, &Some(Action::Ask(Question::Handler)), &Event::Succeeded), Action::Finish(false));
}

#[test]
fn every_command_ends_within_22_steps() {
    let all = [Command::Join, Command::JoinQuietly, Command::Leave, Command::Play, Command::Enqueue, Command::Stop, Command::Pause, Command::Resume, Command::Skip, Command::SkipShowingQueue, Command::ToLoop, Command::ToLoopBlank, Command::EndLoop, Command::EndLoopBlank, Command::Seek];
    let events = [Event::Answer(true), Event::Answer(false), Event::Succeeded, Event::Failed, Event::State(PlayState::Playing)];
    for command in all {
        for first in events {
            for second in events {
                let answers = [first, second, first, second, first, second, first, second];
                assert!(run(command, &answers).len() <= 23);
            }
        }
    }
}

#[test]
fn notice_texts() {
    assert_eq!(notice_message(&Notice::NotInVoice), NoticeMessage::Reply("❌ | No estas en un canal de voz".to_string()));
    assert_eq!(notice_message(&Notice::Disconnected), NoticeMessage::Reply("Bot desconectado".to_string()));
    match notice_message(&Notice::LoopEnabled) {
        NoticeMessage::Embed(f) => {
            assert_eq!(f.name, "🔁 Loop habilitado");
            assert_eq!(f.value, "```css\n-\n```");
            assert!(f.inline);
        }
        other => panic!("unexpected {:?}", other),
    }
    match notice_message(&Notice::LoopUnsupported) {
        NoticeMessage::Embed(f) => assert_eq!(f.value, "```css\n\n```"),
        other => panic!("unexpected {:?}", other),
    }
}

#[test]
fn failed_join_is_logged() {
    assert_eq!(
        run(Command::Join, &[Event::Answer(true), Event::Failed, Event::Succeeded]),
        vec![
            Action::Ask(Question::VoiceChannel),
            Action::Do(Op::Connect),
            Action::LogFailure(Op::Connect),
            Action::Finish(true),
        ]
    );
}

#[test]
fn failed_quiet_join_is_ignored() {
    assert_eq!(
        run(Command::JoinQuietly, &[Event::Answer(true), Event::Failed]),
        vec![Action::Ask(Question::VoiceChannel), Action::Do(Op::Connect), Action::Finish(true)]
    );
    assert_eq!(
        run(Command::JoinQuietly, &[Event::Answer(true), Event::Succeeded]),
        vec![Action::Ask(Question::VoiceChannel), Action::Do(Op::Connect), Action::Finish(true)]
    );
}

#[test]
fn skip_showing_queue_prints_it_before_removing_the_skipped_track() {
    assert_eq!(
        run(
            Command::SkipShowingQueue,
            &[Event::Answer(true), Event::Succeeded, Event::Succeeded, Event::Succeeded, Event::Answer(true), Event::Succeeded]
        ),
        vec![
            Action::Ask(Question::Handler),
            Action::Do(Op::SkipQueue),
            Action::Do(Op::ShowQueue),
            Action::Do(Op::RemoveSkipped),
            Action::Ask(Question::CurrentTrack),
            Action::Do(Op::PlayCurrent),
            Action::Finish(true),
        ]
    );
}

#[test]
fn loops_with_blank_notices() {
    assert_eq!(
        run(Command::ToLoopBlank, &[Event::Answer(true), Event::Answer(true), Event::Succeeded, Event::Succeeded]),
        vec![
            Action::Ask(Question::Handler),
            Action::Ask(Question::CurrentTrack),
            Action::Do(Op::EnableLoop),
            Action::Tell(Notice::LoopEnabledBlank),
            Action::Finish(true),
        ]
    );
    assert_eq!(
        run(Command::EndLoopBlank, &[Event::Answer(true), Event::Answer(true), Event::Succeeded, Event::Succeeded]),
        vec![
            Action::Ask(Question::Handler),
            Action::Ask(Question::CurrentTrack),
            Action::Do(Op::DisableLoop),
            Action::Tell(Notice::LoopDisabledBlank),
            Action::Finish(true),
        ]
    );
    assert_eq!(
        run(Command::ToLoopBlank, &[Event::Answer(true), Event::Answer(true), Event::Failed, Event::Succeeded, Event::Succeeded]),
        vec![
            Action::Ask(Question::Handler),
            Action::Ask(Question::CurrentTrack),
            Action::Do(Op::EnableLoop),
            Action::LogFailure(Op::EnableLoop),
            Action::Tell(Notice::LoopUnsupported),
            Action::Finish(true),
        ]
    );
    for (notice, name) in [(Notice::LoopEnabledBlank, "🔁 Loop habilitado"), (Notice::LoopDisabledBlank, "🛑 Loop deshabilitado")] {
        match notice_message(&notice) {
            NoticeMessage::Embed(f) => {
                assert_eq!(f.name, name);
                assert_eq!(f.value, "```css\n\n```");
                assert!(f.inline);
            }
            other => panic!("unexpected {:?}", other),
        }
    }
}

#[test]
fn joining_and_leaving_say_their_notices_in_the_channel() {
    for command in [Command::Join, Command::JoinQuietly, Command::Leave] {
        assert!(!sends_reply(&command));
    }
    for command in [Command::Play, Command::Enqueue, Command::Resume, Command::Skip, Command::ToLoop, Command::Seek] {
        assert!(sends_reply(&command));
    }
}
