//! The voice commands of the bot as a state machine: given the command, the
//! last action it asked for and what that action gave, the next action.
//! The caller runs the loop: it answers questions, performs operations on
//! the voice connection and its track queue, sends notices, and reports
//! back, until the machine finishes.

use vstd::prelude::*;
use vstd::string::*;

use crate::message::EmbedField;
use crate::utils::{notice_field, notice_text};

verus! {

/// A voice command.
#[derive(Debug, Clone, Copy, PartialEq, Eq)]
pub enum Command {
    /// Join the author's voice channel, logging a failure to connect.
    Join,
    /// Join the author's voice channel, ignoring a failure to connect.
    JoinQuietly,
    /// Leave the voice channel.
    Leave,
    /// Queue the requested track or playlist and play the current track.
    Play,
    /// Queue the requested track, then show the current track when it is
    /// playing, or drop it from the queue when it is paused.
    Enqueue,
    /// Stop playback and clear the queue.
    Stop,
    /// Pause the current track.
    Pause,
    /// Play the current track again.
    Resume,
    /// Skip the current track and play the next one.
    Skip,
    /// Skip as [`Command::Skip`] does, printing the queue before the skipped
    /// track leaves it.
    SkipShowingQueue,
    /// Repeat the current track, saying so with a `-` in the notice.
    ToLoop,
    /// Repeat the current track, saying so with an empty notice value.
    ToLoopBlank,
    /// Stop repeating the current track, saying so with a `-` in the notice.
    EndLoop,
    /// Stop repeating the current track, saying so with an empty notice
    /// value.
    EndLoopBlank,
    /// Jump to a point of the current track.
    Seek,
}

/// A question the caller answers with a yes or a no.
#[derive(Debug, Clone, Copy, PartialEq, Eq)]
pub enum Question {
    /// Is the author of the message in a voice channel?
    VoiceChannel,
    /// Does the guild have a voice connection?
    Handler,
    /// Did queueing the request give a queue?
    QueueRequest,
    /// Does the queue have a current track?
    CurrentTrack,
    /// How is the current track playing? (Answered with a play state.)
    PlayState,
}

/// An operation on the voice connection or its queue.
#[derive(Debug, Clone, Copy, PartialEq, Eq)]
pub enum Op {
    Connect,
    Disconnect,
    StopQueue,
    PauseQueue,
    SkipQueue,
    ShowQueue,
    RemoveSkipped,
    DropPaused,
    ShowCurrent,
    PlayCurrent,
    EnableLoop,
    DisableLoop,
    SeekCurrent,
}

/// A notice to the channel.
#[derive(Debug, Clone, Copy, PartialEq, Eq)]
pub enum Notice {
    NotInVoice,
    NoMoreTracks,
    DisconnectFailed,
    Disconnected,
    LoopEnabled,
    LoopEnabledBlank,
    LoopUnsupported,
    LoopDisabled,
    LoopDisabledBlank,
    SeekOutOfRange,
}

/// How the current track is playing.
#[derive(Debug, Clone, Copy, PartialEq, Eq)]
pub enum PlayState {
    Playing,
    Paused,
    Other,
}

/// What the caller reports back.
#[derive(Debug, Clone, Copy, PartialEq, Eq)]
pub enum Event {
    /// The command is starting.
    Begin,
    /// The answer to a yes-or-no question.
    Answer(bool),
    /// The answer to [`Question::PlayState`].
    State(PlayState),
    /// The operation, notice or logging was carried out.
    Succeeded,
    /// The operation or notice failed.
    Failed,
}

/// What the caller does next.
#[derive(Debug, Clone, Copy, PartialEq, Eq)]
pub enum Action {
    Ask(Question),
    Do(Op),
    /// Print the error of the failed operation.
    LogFailure(Op),
    Tell(Notice),
    /// The command is over, with success or with the last failure.
    Finish(bool),
}

/// The commands that join the author's voice channel.
pub open spec fn joins(command: Command) -> bool {
    command is Join || command is JoinQuietly
}

/// The first action of `command`: joining asks for the author's voice
/// channel; every other command asks for the guild's voice connection.
pub open spec fn first_action(command: Command) -> Action {
    if joins(command) {
        Action::Ask(Question::VoiceChannel)
    } else {
        Action::Ask(Question::Handler)
    }
}

/// What `command` does once the guild's voice connection (for joining: the
/// author's voice channel) has been found.
pub open spec fn on_connection(command: Command) -> Action {
    match command {
        Command::Join | Command::JoinQuietly => Action::Do(Op::Connect),
        Command::Leave => Action::Do(Op::Disconnect),
        Command::Play | Command::Enqueue => Action::Ask(Question::QueueRequest),
        Command::Stop => Action::Do(Op::StopQueue),
        Command::Pause => Action::Do(Op::PauseQueue),
        Command::Skip | Command::SkipShowingQueue => Action::Do(Op::SkipQueue),
        _ => Action::Ask(Question::CurrentTrack),
    }
}

/// What `command` does with the current track, once the queue is known to
/// have one.
pub open spec fn on_current(command: Command) -> Action {
    match command {
        Command::Enqueue => Action::Ask(Question::PlayState),
        Command::ToLoop | Command::ToLoopBlank => Action::Do(Op::EnableLoop),
        Command::EndLoop | Command::EndLoopBlank => Action::Do(Op::DisableLoop),
        Command::Seek => Action::Do(Op::SeekCurrent),
        _ => Action::Do(Op::PlayCurrent),
    }
}

/// What follows the operation `op` of `command` when it succeeded.
pub open spec fn after_success(command: Command, op: Op) -> Action {
    match op {
        Op::Disconnect => Action::Tell(Notice::Disconnected),
        Op::SkipQueue => if command is SkipShowingQueue {
            Action::Do(Op::ShowQueue)
        } else {
            Action::Do(Op::RemoveSkipped)
        },
        Op::ShowQueue => Action::Do(Op::RemoveSkipped),
        Op::RemoveSkipped => Action::Ask(Question::CurrentTrack),
        Op::EnableLoop => if command is ToLoopBlank {
            Action::Tell(Notice::LoopEnabledBlank)
        } else {
            Action::Tell(Notice::LoopEnabled)
        },
        Op::DisableLoop => if command is EndLoopBlank {
            Action::Tell(Notice::LoopDisabledBlank)
        } else {
            Action::Tell(Notice::LoopDisabled)
        },
        _ => Action::Finish(true),
    }
}

/// What follows the operation `op` of `command` when it failed: joining
/// (but joining quietly), looping and ending a loop log the error; leaving
/// says that it failed; seeking says the point is out of range; pausing,
/// skipping and playing end with the failure. The other operations do not
/// fail.
pub open spec fn after_failure(command: Command, op: Op) -> Action {
    match op {
        Op::Connect => if command is JoinQuietly {
            Action::Finish(true)
        } else {
            Action::LogFailure(Op::Connect)
        },
        Op::EnableLoop => Action::LogFailure(Op::EnableLoop),
        Op::DisableLoop => Action::LogFailure(Op::DisableLoop),
        Op::Disconnect => Action::Tell(Notice::DisconnectFailed),
        Op::SeekCurrent => Action::Tell(Notice::SeekOutOfRange),
        Op::PauseQueue => Action::Finish(false),
        Op::SkipQueue => Action::Finish(false),
        Op::PlayCurrent => Action::Finish(false),
        _ => Action::Finish(true),
    }
}

/// The next action of `command`, after the action `last` (none at the
/// start) gave `event`. Any event that `last` cannot give ends the command
/// with a failure.
pub open spec fn next_action(command: Command, last: Option<Action>, event: Event) -> Action {
    match (last, event) {
        (None, Event::Begin) => first_action(command),
        (Some(Action::Ask(Question::VoiceChannel)), Event::Answer(found))
        | (Some(Action::Ask(Question::Handler)), Event::Answer(found)) => if found {
            on_connection(command)
        } else if command is Leave {
            Action::Finish(true)
        } else {
            Action::Tell(Notice::NotInVoice)
        },
        (Some(Action::Ask(Question::QueueRequest)), Event::Answer(queued)) => if queued {
            Action::Ask(Question::CurrentTrack)
        } else {
            Action::Finish(true)
        },
        (Some(Action::Ask(Question::QueueRequest)), Event::Failed) => Action::Finish(false),
        (Some(Action::Ask(Question::CurrentTrack)), Event::Answer(present)) => if present {
            on_current(command)
        } else if command is Resume {
            Action::Tell(Notice::NoMoreTracks)
        } else {
            Action::Finish(true)
        },
        (Some(Action::Ask(Question::PlayState)), Event::State(state)) => match state {
            PlayState::Playing => Action::Do(Op::ShowCurrent),
            PlayState::Paused => Action::Do(Op::DropPaused),
            PlayState::Other => Action::Finish(true),
        },
        (Some(Action::Ask(Question::PlayState)), Event::Failed) => Action::Finish(false),
        (Some(Action::Do(op)), Event::Succeeded) => after_success(command, op),
        (Some(Action::Do(op)), Event::Failed) => after_failure(command, op),
        (Some(Action::LogFailure(op)), Event::Succeeded) => if op is EnableLoop {
            Action::Tell(Notice::LoopUnsupported)
        } else {
            Action::Finish(true)
        },
        (Some(Action::Tell(notice)), Event::Succeeded) => if notice is DisconnectFailed {
            Action::Tell(Notice::Disconnected)
        } else {
            Action::Finish(true)
        },
        _ => Action::Finish(false),
    }
}

/// The next action of `command` after `last` gave `event`, as
/// [`next_action`] states.
pub fn next(command: &Command, last: &Option<Action>, event: &Event) -> (a: Action)
    ensures
        a == next_action(*command, *last, *event),
{
    match (last, event) {
        (None, Event::Begin) => match command {
            Command::Join | Command::JoinQuietly => Action::Ask(Question::VoiceChannel),
            _ => Action::Ask(Question::Handler),
        },
        (Some(Action::Ask(Question::VoiceChannel)), Event::Answer(found))
        | (Some(Action::Ask(Question::Handler)), Event::Answer(found)) => if *found {
            match command {
                Command::Join | Command::JoinQuietly => Action::Do(Op::Connect),
                Command::Leave => Action::Do(Op::Disconnect),
                Command::Play | Command::Enqueue => Action::Ask(Question::QueueRequest),
                Command::Stop => Action::Do(Op::StopQueue),
                Command::Pause => Action::Do(Op::PauseQueue),
                Command::Skip | Command::SkipShowingQueue => Action::Do(Op::SkipQueue),
                _ => Action::Ask(Question::CurrentTrack),
            }
        } else {
            match command {
                Command::Leave => Action::Finish(true),
                _ => Action::Tell(Notice::NotInVoice),
            }
        },
        (Some(Action::Ask(Question::QueueRequest)), Event::Answer(queued)) => if *queued {
            Action::Ask(Question::CurrentTrack)
        } else {
            Action::Finish(true)
        },
        (Some(Action::Ask(Question::QueueRequest)), Event::Failed) => Action::Finish(false),
        (Some(Action::Ask(Question::CurrentTrack)), Event::Answer(present)) => if *present {
            match command {
                Command::Enqueue => Action::Ask(Question::PlayState),
                Command::ToLoop | Command::ToLoopBlank => Action::Do(Op::EnableLoop),
                Command::EndLoop | Command::EndLoopBlank => Action::Do(Op::DisableLoop),
                Command::Seek => Action::Do(Op::SeekCurrent),
                _ => Action::Do(Op::PlayCurrent),
            }
        } else {
            match command {
                Command::Resume => Action::Tell(Notice::NoMoreTracks),
                _ => Action::Finish(true),
            }
        },
        (Some(Action::Ask(Question::PlayState)), Event::State(state)) => match state {
            PlayState::Playing => Action::Do(Op::ShowCurrent),
            PlayState::Paused => Action::Do(Op::DropPaused),
            PlayState::Other => Action::Finish(true),
        },
        (Some(Action::Ask(Question::PlayState)), Event::Failed) => Action::Finish(false),
        (Some(Action::Do(op)), Event::Succeeded) => match op {
            Op::Disconnect => Action::Tell(Notice::Disconnected),
            Op::SkipQueue => match command {
                Command::SkipShowingQueue => Action::Do(Op::ShowQueue),
                _ => Action::Do(Op::RemoveSkipped),
            },
            Op::ShowQueue => Action::Do(Op::RemoveSkipped),
            Op::RemoveSkipped => Action::Ask(Question::CurrentTrack),
            Op::EnableLoop => match command {
                Command::ToLoopBlank => Action::Tell(Notice::LoopEnabledBlank),
                _ => Action::Tell(Notice::LoopEnabled),
            },
            Op::DisableLoop => match command {
                Command::EndLoopBlank => Action::Tell(Notice::LoopDisabledBlank),
                _ => Action::Tell(Notice::LoopDisabled),
            },
            _ => Action::Finish(true),
        },
        (Some(Action::Do(op)), Event::Failed) => match op {
            Op::Connect => match command {
                Command::JoinQuietly => Action::Finish(true),
                _ => Action::LogFailure(Op::Connect),
            },
            Op::EnableLoop => Action::LogFailure(Op::EnableLoop),
            Op::DisableLoop => Action::LogFailure(Op::DisableLoop),
            Op::Disconnect => Action::Tell(Notice::DisconnectFailed),
            Op::SeekCurrent => Action::Tell(Notice::SeekOutOfRange),
            Op::PauseQueue | Op::SkipQueue | Op::PlayCurrent => Action::Finish(false),
            _ => Action::Finish(true),
        },
        (Some(Action::LogFailure(op)), Event::Succeeded) => match op {
            Op::EnableLoop => Action::Tell(Notice::LoopUnsupported),
            _ => Action::Finish(true),
        },
        (Some(Action::Tell(notice)), Event::Succeeded) => match notice {
            Notice::DisconnectFailed => Action::Tell(Notice::Disconnected),
            _ => Action::Finish(true),
        },
        _ => Action::Finish(false),
    }
}

/// How far an action is from the end of a command: every step goes to an
/// action of lower rank, or finishes.
pub open spec fn rank(last: Option<Action>) -> nat {
    match last {
        None => 22,
        Some(Action::Ask(Question::VoiceChannel)) => 21,
        Some(Action::Ask(Question::Handler)) => 21,
        Some(Action::Ask(Question::QueueRequest)) => 19,
        Some(Action::Do(Op::SkipQueue)) => 18,
        Some(Action::Do(Op::ShowQueue)) => 17,
        Some(Action::Do(Op::RemoveSkipped)) => 16,
        Some(Action::Ask(Question::CurrentTrack)) => 15,
        Some(Action::Ask(Question::PlayState)) => 14,
        Some(Action::Do(_)) => 10,
        Some(Action::LogFailure(_)) => 5,
        Some(Action::Tell(Notice::DisconnectFailed)) => 3,
        Some(Action::Tell(_)) => 2,
        Some(Action::Finish(_)) => 0,
    }
}

/// Every voice command ends: each step either finishes the command or moves
/// to an action of lower [`rank`], so that a command takes at most 22 steps
/// whatever the caller reports.
pub proof fn lemma_commands_finish(command: Command, last: Option<Action>, event: Event)
    ensures
        next_action(command, last, event) is Finish || rank(
            Some(next_action(command, last, event)),
        ) < rank(last),
{
}

/// A command that acts on the queue tells the author that they are not in a
/// voice channel exactly when the guild has no voice connection; leaving
/// then ends quietly.
pub proof fn lemma_not_in_voice(command: Command, found: bool)
    ensures
        next_action(command, Some(first_action(command)), Event::Answer(found))
            == Action::Tell(Notice::NotInVoice) <==> !found && !(command is Leave),
        !found && command is Leave ==> next_action(
            command,
            Some(first_action(command)),
            Event::Answer(found),
        ) == Action::Finish(true),
{
}

/// The last action of `command` once the caller has reported `events`, in
/// order, starting from no action at all.
pub open spec fn trace(command: Command, events: Seq<Event>) -> Option<Action>
    decreases events.len(),
{
    if events.len() == 0 {
        None
    } else {
        Some(next_action(command, trace(command, events.drop_last()), events.last()))
    }
}

/// The actions that a run of `command` can stand at.
spec fn in_course(command: Command, a: Option<Action>) -> bool {
    match a {
        None => true,
        Some(Action::Finish(_)) => true,
        Some(action) => match command {
            Command::Join | Command::JoinQuietly => {
                ||| action == Action::Ask(Question::VoiceChannel)
                ||| action == Action::Tell(Notice::NotInVoice)
                ||| action == Action::Do(Op::Connect)
                ||| command is Join && action == Action::LogFailure(Op::Connect)
            },
            Command::Leave => {
                ||| action == Action::Ask(Question::Handler)
                ||| action == Action::Do(Op::Disconnect)
                ||| action == Action::Tell(Notice::DisconnectFailed)
                ||| action == Action::Tell(Notice::Disconnected)
            },
            Command::Stop => {
                ||| action == Action::Ask(Question::Handler)
                ||| action == Action::Tell(Notice::NotInVoice)
                ||| action == Action::Do(Op::StopQueue)
            },
            Command::Pause => {
                ||| action == Action::Ask(Question::Handler)
                ||| action == Action::Tell(Notice::NotInVoice)
                ||| action == Action::Do(Op::PauseQueue)
            },
            Command::Play => {
                ||| action == Action::Ask(Question::Handler)
                ||| action == Action::Tell(Notice::NotInVoice)
                ||| action == Action::Ask(Question::QueueRequest)
                ||| action == Action::Ask(Question::CurrentTrack)
                ||| action == Action::Do(Op::PlayCurrent)
            },
            Command::Enqueue => {
                ||| action == Action::Ask(Question::Handler)
                ||| action == Action::Tell(Notice::NotInVoice)
                ||| action == Action::Ask(Question::QueueRequest)
                ||| action == Action::Ask(Question::CurrentTrack)
                ||| action == Action::Ask(Question::PlayState)
                ||| action == Action::Do(Op::ShowCurrent)
                ||| action == Action::Do(Op::DropPaused)
            },
            Command::Resume => {
                ||| action == Action::Ask(Question::Handler)
                ||| action == Action::Tell(Notice::NotInVoice)
                ||| action == Action::Ask(Question::CurrentTrack)
                ||| action == Action::Do(Op::PlayCurrent)
                ||| action == Action::Tell(Notice::NoMoreTracks)
            },
            Command::Skip | Command::SkipShowingQueue => {
                ||| action == Action::Ask(Question::Handler)
                ||| action == Action::Tell(Notice::NotInVoice)
                ||| action == Action::Do(Op::SkipQueue)
                ||| command is SkipShowingQueue && action == Action::Do(Op::ShowQueue)
                ||| action == Action::Do(Op::RemoveSkipped)
                ||| action == Action::Ask(Question::CurrentTrack)
                ||| action == Action::Do(Op::PlayCurrent)
            },
            Command::ToLoop | Command::ToLoopBlank => {
                ||| action == Action::Ask(Question::Handler)
                ||| action == Action::Tell(Notice::NotInVoice)
                ||| action == Action::Ask(Question::CurrentTrack)
                ||| action == Action::Do(Op::EnableLoop)
                ||| action == Action::LogFailure(Op::EnableLoop)
                ||| action == Action::Tell(Notice::LoopUnsupported)
                ||| command is ToLoop && action == Action::Tell(Notice::LoopEnabled)
                ||| command is ToLoopBlank && action == Action::Tell(Notice::LoopEnabledBlank)
            },
            Command::EndLoop | Command::EndLoopBlank => {
                ||| action == Action::Ask(Question::Handler)
                ||| action == Action::Tell(Notice::NotInVoice)
                ||| action == Action::Ask(Question::CurrentTrack)
                ||| action == Action::Do(Op::DisableLoop)
                ||| action == Action::LogFailure(Op::DisableLoop)
                ||| command is EndLoop && action == Action::Tell(Notice::LoopDisabled)
                ||| command is EndLoopBlank && action == Action::Tell(Notice::LoopDisabledBlank)
            },
            Command::Seek => {
                ||| action == Action::Ask(Question::Handler)
                ||| action == Action::Tell(Notice::NotInVoice)
                ||| action == Action::Ask(Question::CurrentTrack)
                ||| action == Action::Do(Op::SeekCurrent)
                ||| action == Action::Tell(Notice::SeekOutOfRange)
            },
        },
    }
}

proof fn lemma_in_course(command: Command, events: Seq<Event>)
    ensures
        in_course(command, trace(command, events)),
    decreases events.len(),
{
    if events.len() > 0 {
        lemma_in_course(command, events.drop_last());
    }
}

/// Each command only ever carries out its own operations, however the
/// caller answers: joining only connects, leaving only disconnects,
/// stopping only stops the queue, pausing only pauses it, playing and
/// resuming only play the current track, queueing with an announcement only
/// shows the current track or drops a paused one, skipping only skips,
/// removes the skipped track (after printing the queue, for the command that
/// shows it) and plays the next, looping only enables the loop, ending a
/// loop only disables it and seeking only seeks. A loop that is being ended
/// is never announced as enabled, nor the reverse; the blank notices come
/// only from the blank commands; leaving never tells the author that they
/// are not in a voice channel; a quiet join never logs a failure.
pub proof fn lemma_commands_keep_to_their_operation(command: Command, events: Seq<Event>)
    ensures
        joins(command) ==> (trace(command, events) matches Some(Action::Do(op)) ==> op
            == Op::Connect),
        command is Leave ==> (trace(command, events) matches Some(Action::Do(op)) ==> op
            == Op::Disconnect),
        command is Stop ==> (trace(command, events) matches Some(Action::Do(op)) ==> op
            == Op::StopQueue),
        command is Pause ==> (trace(command, events) matches Some(Action::Do(op)) ==> op
            == Op::PauseQueue),
        command is Play || command is Resume ==> (trace(command, events) matches Some(
            Action::Do(op),
        ) ==> op == Op::PlayCurrent),
        command is Enqueue ==> (trace(command, events) matches Some(Action::Do(op)) ==> op
            == Op::ShowCurrent || op == Op::DropPaused),
        command is Skip ==> (trace(command, events) matches Some(Action::Do(op)) ==> op
            == Op::SkipQueue || op == Op::RemoveSkipped || op == Op::PlayCurrent),
        command is SkipShowingQueue ==> (trace(command, events) matches Some(Action::Do(op))
            ==> op == Op::SkipQueue || op == Op::ShowQueue || op == Op::RemoveSkipped || op
            == Op::PlayCurrent),
        command is ToLoop || command is ToLoopBlank ==> (trace(command, events) matches Some(
            Action::Do(op),
        ) ==> op == Op::EnableLoop),
        command is EndLoop || command is EndLoopBlank ==> (trace(command, events) matches Some(
            Action::Do(op),
        ) ==> op == Op::DisableLoop),
        command is Seek ==> (trace(command, events) matches Some(Action::Do(op)) ==> op
            == Op::SeekCurrent),
        trace(command, events) == Some(Action::Tell(Notice::LoopEnabled)) ==> command is ToLoop,
        trace(command, events) == Some(Action::Tell(Notice::LoopEnabledBlank))
            ==> command is ToLoopBlank,
        trace(command, events) == Some(Action::Tell(Notice::LoopDisabled)) ==> command is EndLoop,
        trace(command, events) == Some(Action::Tell(Notice::LoopDisabledBlank))
            ==> command is EndLoopBlank,
        command is Leave ==> trace(command, events) != Some(Action::Tell(Notice::NotInVoice)),
        command is JoinQuietly ==> !(trace(command, events) matches Some(Action::LogFailure(_))),
{
    lemma_in_course(command, events);
}

/// How a run goes on after an operation or a notice: a failed seek says the
/// point is out of range; a failed disconnect says so and then still says
/// that the bot is disconnected; a failed pause, skip or play ends the
/// command with that failure; a loop that cannot be enabled is logged and
/// then said to be unsupported, one that cannot be disabled is only logged;
/// a failed connect is logged, except by the quiet join, which ends. A
/// successful skip removes the skipped track (printing the queue first for
/// the command that shows it), and a successful loop change is announced.
pub proof fn lemma_runs_after_operations(command: Command, events: Seq<Event>)
    ensures
        trace(command, events) == Some(Action::Do(Op::SeekCurrent)) ==> trace(
            command,
            events.push(Event::Failed),
        ) == Some(Action::Tell(Notice::SeekOutOfRange)),
        trace(command, events) == Some(Action::Do(Op::Disconnect)) ==> trace(
            command,
            events.push(Event::Failed),
        ) == Some(Action::Tell(Notice::DisconnectFailed)),
        trace(command, events) == Some(Action::Tell(Notice::DisconnectFailed)) ==> trace(
            command,
            events.push(Event::Succeeded),
        ) == Some(Action::Tell(Notice::Disconnected)),
        trace(command, events) == Some(Action::Do(Op::Disconnect)) ==> trace(
            command,
            events.push(Event::Succeeded),
        ) == Some(Action::Tell(Notice::Disconnected)),
        trace(command, events) == Some(Action::Do(Op::PauseQueue)) || trace(command, events)
            == Some(Action::Do(Op::SkipQueue)) || trace(command, events) == Some(
            Action::Do(Op::PlayCurrent),
        ) ==> trace(command, events.push(Event::Failed)) == Some(Action::Finish(false)),
        trace(command, events) == Some(Action::Do(Op::EnableLoop)) ==> trace(
            command,
            events.push(Event::Failed),
        ) == Some(Action::LogFailure(Op::EnableLoop)),
        trace(command, events) == Some(Action::LogFailure(Op::EnableLoop)) ==> trace(
            command,
            events.push(Event::Succeeded),
        ) == Some(Action::Tell(Notice::LoopUnsupported)),
        trace(command, events) == Some(Action::Do(Op::DisableLoop)) ==> trace(
            command,
            events.push(Event::Failed),
        ) == Some(Action::LogFailure(Op::DisableLoop)),
        trace(command, events) == Some(Action::LogFailure(Op::DisableLoop)) ==> trace(
            command,
            events.push(Event::Succeeded),
        ) == Some(Action::Finish(true)),
        trace(command, events) == Some(Action::Do(Op::Connect)) ==> trace(
            command,
            events.push(Event::Failed),
        ) == Some(
            if command is JoinQuietly {
                Action::Finish(true)
            } else {
                Action::LogFailure(Op::Connect)
            },
        ),
        trace(command, events) == Some(Action::Do(Op::SkipQueue)) ==> trace(
            command,
            events.push(Event::Succeeded),
        ) == Some(
            if command is SkipShowingQueue {
                Action::Do(Op::ShowQueue)
            } else {
                Action::Do(Op::RemoveSkipped)
            },
        ),
        trace(command, events) == Some(Action::Do(Op::ShowQueue)) ==> trace(
            command,
            events.push(Event::Succeeded),
        ) == Some(Action::Do(Op::RemoveSkipped)),
        trace(command, events) == Some(Action::Do(Op::RemoveSkipped)) ==> trace(
            command,
            events.push(Event::Succeeded),
        ) == Some(Action::Ask(Question::CurrentTrack)),
        trace(command, events) == Some(Action::Do(Op::EnableLoop)) ==> trace(
            command,
            events.push(Event::Succeeded),
        ) == Some(
            Action::Tell(
                if command is ToLoopBlank {
                    Notice::LoopEnabledBlank
                } else {
                    Notice::LoopEnabled
                },
            ),
        ),
        trace(command, events) == Some(Action::Do(Op::DisableLoop)) ==> trace(
            command,
            events.push(Event::Succeeded),
        ) == Some(
            Action::Tell(
                if command is EndLoopBlank {
                    Notice::LoopDisabledBlank
                } else {
                    Notice::LoopDisabled
                },
            ),
        ),
{
    assert(events.push(Event::Failed).drop_last() =~= events);
    assert(events.push(Event::Succeeded).drop_last() =~= events);
}

/// Stopping and pausing act as soon as the guild's voice connection is
/// found: stopping stops the queue, pausing pauses it; without a
/// connection both tell the author that they are not in a voice channel.
pub proof fn lemma_stop_and_pause_on_connection(found: bool)
    ensures
        next_action(Command::Stop, Some(Action::Ask(Question::Handler)), Event::Answer(found))
            == if found {
            Action::Do(Op::StopQueue)
        } else {
            Action::Tell(Notice::NotInVoice)
        },
        next_action(Command::Pause, Some(Action::Ask(Question::Handler)), Event::Answer(found))
            == if found {
            Action::Do(Op::PauseQueue)
        } else {
            Action::Tell(Notice::NotInVoice)
        },
{
}

/// What the commands do once they learn whether the queue has a current
/// track: playing, resuming and skipping play it, looping enables its loop
/// and ending a loop disables it; with no current track they end, but
/// resuming, which says that there is nothing more to play.
pub proof fn lemma_commands_on_current_track(command: Command, present: bool)
    ensures
        present && (command is Play || command is Resume || command is Skip
            || command is SkipShowingQueue) ==> next_action(
            command,
            Some(Action::Ask(Question::CurrentTrack)),
            Event::Answer(present),
        ) == Action::Do(Op::PlayCurrent),
        present && (command is ToLoop || command is ToLoopBlank) ==> next_action(
            command,
            Some(Action::Ask(Question::CurrentTrack)),
            Event::Answer(present),
        ) == Action::Do(Op::EnableLoop),
        present && (command is EndLoop || command is EndLoopBlank) ==> next_action(
            command,
            Some(Action::Ask(Question::CurrentTrack)),
            Event::Answer(present),
        ) == Action::Do(Op::DisableLoop),
        present && command is Seek ==> next_action(
            command,
            Some(Action::Ask(Question::CurrentTrack)),
            Event::Answer(present),
        ) == Action::Do(Op::SeekCurrent),
        !present && command is Resume ==> next_action(
            command,
            Some(Action::Ask(Question::CurrentTrack)),
            Event::Answer(present),
        ) == Action::Tell(Notice::NoMoreTracks),
        !present && !(command is Resume) ==> next_action(
            command,
            Some(Action::Ask(Question::CurrentTrack)),
            Event::Answer(present),
        ) == Action::Finish(true),
{
}

/// Whether `command` sends its plain notices as a reply to the author's
/// message: joining and leaving say them in the channel instead.
pub open spec fn replies(command: Command) -> bool {
    !joins(command) && !(command is Leave)
}

/// Whether `command` sends its plain notices as a reply, as [`replies`]
/// states.
pub fn sends_reply(command: &Command) -> (r: bool)
    ensures
        r == replies(*command),
{
    match command {
        Command::Join | Command::JoinQuietly | Command::Leave => false,
        _ => true,
    }
}

/// What a notice sends: a plain reply, or an embedded one-line notice.
#[derive(Debug, Clone, PartialEq, Eq)]
pub enum NoticeMessage {
    Reply(String),
    Embed(EmbedField),
}

/// The plain text of the notices that are sent as replies.
pub open spec fn reply_text(notice: Notice) -> Option<Seq<char>> {
    match notice {
        Notice::NotInVoice => Some("❌ | No estas en un canal de voz"@),
        Notice::NoMoreTracks => Some("❌ | No hay mas canciones para reproducir"@),
        Notice::DisconnectFailed => Some("❌ | Error al desconectar el bot"@),
        Notice::Disconnected => Some("Bot desconectado"@),
        _ => None,
    }
}

/// The name and value of the notices that are sent as embedded one-line
/// notices.
pub open spec fn embed_text(notice: Notice) -> (Seq<char>, Seq<char>) {
    match notice {
        Notice::LoopEnabled => ("🔁 Loop habilitado"@, "-"@),
        Notice::LoopEnabledBlank => ("🔁 Loop habilitado"@, ""@),
        Notice::LoopUnsupported => ("❌ Esta cancion no tiene la opcion 'loop' habilitada"@, ""@),
        Notice::LoopDisabled => ("🛑 Loop deshabilitado"@, "-"@),
        Notice::LoopDisabledBlank => ("🛑 Loop deshabilitado"@, ""@),
        _ => ("❌ Limite de tiempo sobrepasado"@, "-"@),
    }
}

/// The message that carries `notice`: the reply text of [`reply_text`], or
/// a side-by-side one-line notice named and valued as [`embed_text`] says.
pub fn notice_message(notice: &Notice) -> (m: NoticeMessage)
    ensures
        m is Reply <==> reply_text(*notice) is Some,
        m matches NoticeMessage::Reply(t) ==> t@ == reply_text(*notice)->0,
        m matches NoticeMessage::Embed(f) ==> {
            &&& f.name@ == embed_text(*notice).0
            &&& f.value@ == notice_text(embed_text(*notice).1)
            &&& f.inline
        },
{
    match notice {
        Notice::NotInVoice => NoticeMessage::Reply(
            String::from_str("❌ | No estas en un canal de voz"),
        ),
        Notice::NoMoreTracks => NoticeMessage::Reply(
            String::from_str("❌ | No hay mas canciones para reproducir"),
        ),
        Notice::DisconnectFailed => NoticeMessage::Reply(
            String::from_str("❌ | Error al desconectar el bot"),
        ),
        Notice::Disconnected => NoticeMessage::Reply(String::from_str("Bot desconectado")),
        Notice::LoopEnabled => NoticeMessage::Embed(notice_field("🔁 Loop habilitado", "-", true)),
        Notice::LoopEnabledBlank => NoticeMessage::Embed(
            notice_field("🔁 Loop habilitado", "", true),
        ),
        Notice::LoopUnsupported => NoticeMessage::Embed(
            notice_field("❌ Esta cancion no tiene la opcion 'loop' habilitada", "", true),
        ),
        Notice::LoopDisabled => NoticeMessage::Embed(
            notice_field("🛑 Loop deshabilitado", "-", true),
        ),
        Notice::LoopDisabledBlank => NoticeMessage::Embed(
            notice_field("🛑 Loop deshabilitado", "", true),
        ),
        Notice::SeekOutOfRange => NoticeMessage::Embed(
            notice_field("❌ Limite de tiempo sobrepasado", "-", true),
        ),
    }
}

} // verus!
