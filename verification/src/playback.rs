//! The playing thread as a state machine.

use crate::level::Level;
use crate::player::{queue_after, AudioCommand};
use vstd::prelude::*;

verus! {

/// What happened when the last action was carried out.
pub enum PlaybackEvent {
    /// Whether the output device was opened.
    Opened(bool),
    /// The action was carried out.
    Applied,
    /// The command that was waited for, or nothing when no more will come.
    Received(Option<AudioCommand>),
    /// Whether the clip could be decoded.
    Decoded(bool),
}

/// What to do next.
pub enum PlaybackAction {
    /// Open the output device.
    Open,
    SetVolume(Level),
    /// Wait for a command.
    Receive,
    /// Decode a clip.
    Decode(Vec<u8>),
    /// Queue the clip that was decoded.
    Queue,
    /// Drop the clips that are queued. This halts the output.
    Clear,
    /// Let the output go on.
    Resume,
    /// The thread is done.
    Stop,
}

/// What to do next, as a value.
#[verifier::ext_equal]
pub enum PlaybackActionModel {
    Open,
    SetVolume(Level),
    Receive,
    Decode(Seq<u8>),
    Queue,
    Clear,
    Resume,
    Stop,
}

impl View for PlaybackAction {
    type V = PlaybackActionModel;

    open spec fn view(&self) -> PlaybackActionModel {
        match self {
            PlaybackAction::Open => PlaybackActionModel::Open,
            PlaybackAction::SetVolume(volume) => PlaybackActionModel::SetVolume(*volume),
            PlaybackAction::Receive => PlaybackActionModel::Receive,
            PlaybackAction::Decode(clip) => PlaybackActionModel::Decode(clip@),
            PlaybackAction::Queue => PlaybackActionModel::Queue,
            PlaybackAction::Clear => PlaybackActionModel::Clear,
            PlaybackAction::Resume => PlaybackActionModel::Resume,
            PlaybackAction::Stop => PlaybackActionModel::Stop,
        }
    }
}

/// The state of a playing thread. It begins with `PlaybackAction::Open`.
#[derive(Clone, Copy, Debug, PartialEq, Eq, Structural)]
pub enum Playback {
    /// Opening the output device; the volume is what it will be set to.
    Opening(Level),
    /// Carrying something out, after which the next command is due.
    Applying,
    /// Dropping the clips that are queued.
    Clearing,
    /// Waiting for a command.
    Waiting,
    /// Decoding a clip.
    Decoding,
    Done,
}

impl Playback {
    /// Whether an event is one that the thread is waiting for.
    pub open spec fn expects(self, event: PlaybackEvent) -> bool {
        match event {
            PlaybackEvent::Opened(_) => self is Opening,
            PlaybackEvent::Applied => self is Applying || self is Clearing,
            PlaybackEvent::Received(_) => self is Waiting,
            PlaybackEvent::Decoded(_) => self is Decoding,
        }
    }

    /// The state and the action that follow an event.
    pub open spec fn next(self, event: PlaybackEvent) -> (Playback, PlaybackActionModel) {
        match event {
            PlaybackEvent::Opened(true) => (
                Playback::Applying,
                PlaybackActionModel::SetVolume(self->Opening_0),
            ),
            PlaybackEvent::Opened(false) => (Playback::Done, PlaybackActionModel::Stop),
            PlaybackEvent::Applied => if self is Clearing {
                (Playback::Applying, PlaybackActionModel::Resume)
            } else {
                (Playback::Waiting, PlaybackActionModel::Receive)
            },
            PlaybackEvent::Received(Some(AudioCommand::Play(clip))) => (
                Playback::Decoding,
                PlaybackActionModel::Decode(clip@),
            ),
            PlaybackEvent::Received(Some(AudioCommand::SetVolume(volume))) => (
                Playback::Applying,
                PlaybackActionModel::SetVolume(volume),
            ),
            PlaybackEvent::Received(Some(AudioCommand::Clear)) => (
                Playback::Clearing,
                PlaybackActionModel::Clear,
            ),
            PlaybackEvent::Received(Some(AudioCommand::Shutdown)) => (
                Playback::Done,
                PlaybackActionModel::Stop,
            ),
            PlaybackEvent::Received(None) => (Playback::Done, PlaybackActionModel::Stop),
            PlaybackEvent::Decoded(true) => (Playback::Applying, PlaybackActionModel::Queue),
            PlaybackEvent::Decoded(false) => (Playback::Waiting, PlaybackActionModel::Receive),
        }
    }

    /// A thread that will play at this volume.
    pub fn new(volume: Level) -> (r: Self)
        ensures
            r == Playback::Opening(volume),
    {
        Playback::Opening(volume)
    }

    /// Takes note of what happened and says what to do next.
    pub fn step(&mut self, event: PlaybackEvent) -> (r: PlaybackAction)
        requires
            old(self).expects(event),
        ensures
            (*final(self), r@) == old(self).next(event),
    {
        let (state, action) = match event {
            PlaybackEvent::Opened(opened) => match *self {
                Playback::Opening(volume) if opened => (
                    Playback::Applying,
                    PlaybackAction::SetVolume(volume),
                ),
                _ => (Playback::Done, PlaybackAction::Stop),
            },
            PlaybackEvent::Applied => match *self {
                Playback::Clearing => (Playback::Applying, PlaybackAction::Resume),
                _ => (Playback::Waiting, PlaybackAction::Receive),
            },
            PlaybackEvent::Received(Some(AudioCommand::Play(clip))) => (
                Playback::Decoding,
                PlaybackAction::Decode(clip),
            ),
            PlaybackEvent::Received(Some(AudioCommand::SetVolume(volume))) => (
                Playback::Applying,
                PlaybackAction::SetVolume(volume),
            ),
            PlaybackEvent::Received(Some(AudioCommand::Clear)) => (
                Playback::Clearing,
                PlaybackAction::Clear,
            ),
            PlaybackEvent::Received(_) => (Playback::Done, PlaybackAction::Stop),
            PlaybackEvent::Decoded(decoded) => if decoded {
                (Playback::Applying, PlaybackAction::Queue)
            } else {
                (Playback::Waiting, PlaybackAction::Receive)
            },
        };
        *self = state;
        action
    }
}

/// Clearing the queue does not keep what comes next from being heard: the output
/// goes on before the next command is taken.
pub proof fn playback_goes_on_after_a_clear()
    ensures
        ({
            let (clearing, first) = Playback::Waiting.next(
                PlaybackEvent::Received(Some(AudioCommand::Clear)),
            );
            let (resuming, second) = clearing.next(PlaybackEvent::Applied);
            let (waiting, third) = resuming.next(PlaybackEvent::Applied);
            &&& first is Clear
            &&& second is Resume
            &&& third is Receive && waiting == Playback::Waiting
        }),
{
}

/// The clips that wait to be played once a waiting thread has carried a command
/// out, as its actions have it; `decodable` is whether a clip can be decoded.
pub open spec fn carried_out(
    queue: Seq<Seq<u8>>,
    command: AudioCommand,
    decodable: bool,
) -> Seq<Seq<u8>> {
    let (state, action) = Playback::Waiting.next(PlaybackEvent::Received(Some(command)));
    match action {
        PlaybackActionModel::Clear => Seq::empty(),
        PlaybackActionModel::Decode(clip) => if state.next(PlaybackEvent::Decoded(decodable)).1
            is Queue {
            queue.push(clip)
        } else {
            queue
        },
        _ => queue,
    }
}

/// The output is set to the volume that the thread was made for before anything
/// else, and to any other as soon as that is told. Each clip is decoded just as
/// it came.
pub proof fn volumes_and_clips_are_passed_on(volume: Level, clip: Vec<u8>)
    ensures
        Playback::Opening(volume).next(PlaybackEvent::Opened(true)).1
            == PlaybackActionModel::SetVolume(volume),
        Playback::Waiting.next(
            PlaybackEvent::Received(Some(AudioCommand::SetVolume(volume))),
        ).1 == PlaybackActionModel::SetVolume(volume),
        Playback::Waiting.next(PlaybackEvent::Received(Some(AudioCommand::Play(clip)))).1
            == PlaybackActionModel::Decode(clip@),
        Playback::Decoding.next(PlaybackEvent::Decoded(true)).1 is Queue,
        Playback::Decoding.next(PlaybackEvent::Decoded(false)).1 is Receive,
        Playback::Applying.next(PlaybackEvent::Applied).1 is Receive,
{
}

/// The thread does what it is told: clips are queued in order, unless they
/// cannot be decoded, and a clear drops them.
pub proof fn commands_are_carried_out(
    queue: Seq<Seq<u8>>,
    command: AudioCommand,
    decodable: bool,
)
    ensures
        carried_out(queue, command, decodable) == (if command is Play && !decodable {
            queue
        } else {
            queue_after(queue, command)
        }),
{
}

/// The thread ends when it is told to, when no more commands will come, or when
/// there is no output device. A clip that cannot be decoded does not end it.
pub proof fn playback_ends_only_for_a_reason(playback: Playback, event: PlaybackEvent)
    requires
        playback.expects(event),
    ensures
        playback.next(event).0 is Done <==> event == PlaybackEvent::Opened(false) || event
            == PlaybackEvent::Received(None) || event == PlaybackEvent::Received(
            Some(AudioCommand::Shutdown),
        ),
        playback.next(event).0 is Done <==> playback.next(event).1 is Stop,
{
}

/// The thread always waits for the event that its last action brings about,
/// whatever that turns out to be.
pub proof fn actions_bring_the_expected_events(playback: Playback, event: PlaybackEvent)
    requires
        playback.expects(event),
    ensures
        match playback.next(event).1 {
            PlaybackActionModel::Open => playback.next(event).0 is Opening,
            PlaybackActionModel::SetVolume(_) => playback.next(event).0 is Applying,
            PlaybackActionModel::Receive => playback.next(event).0 is Waiting,
            PlaybackActionModel::Decode(_) => playback.next(event).0 is Decoding,
            PlaybackActionModel::Queue => playback.next(event).0 is Applying,
            PlaybackActionModel::Clear => playback.next(event).0 is Clearing,
            PlaybackActionModel::Resume => playback.next(event).0 is Applying,
            PlaybackActionModel::Stop => playback.next(event).0 is Done,
        },
        match playback.next(event).1 {
            PlaybackActionModel::Open => forall|opened: bool|
                #[trigger] playback.next(event).0.expects(PlaybackEvent::Opened(opened)),
            PlaybackActionModel::Receive => forall|command: Option<AudioCommand>|
                #[trigger] playback.next(event).0.expects(PlaybackEvent::Received(command)),
            PlaybackActionModel::Decode(_) => forall|decoded: bool|
                #[trigger] playback.next(event).0.expects(PlaybackEvent::Decoded(decoded)),
            PlaybackActionModel::Stop => true,
            _ => playback.next(event).0.expects(PlaybackEvent::Applied),
        },
{
}

} // verus!
