//! WS /v1/audio/stream: the streaming session protocol, as a state machine
//! the socket loop drives.
//!
//! Protocol (control frames are JSON text):
//!   client -> {"type":"start","model":"<alias>"?,"language":"ru"?,"pnc":bool?,"itn":bool?}
//!   client -> binary PCM16LE mono 16 kHz frames (any framing)
//!   client -> {"type":"stop"}
//!   server -> {"type":"partial","text":"..."}   per drained chunk
//!   server -> {"type":"final","text":"..."}     on stop, then server closes
//!   server -> {"type":"error","message":"..."}  on any error, then closes
//!
//! Binary frames are only valid after start and must contain a whole
//! number of PCM16LE samples: a dangling odd byte is a protocol error.
//! Whenever a full window is buffered it is drained at the chunker's first
//! cut. The final text is every partial text plus the remainder joined with
//! a single space; empty chunk transcripts are skipped.

use vstd::prelude::*;

use super::transcriptions::{or_else, ServerDefaults};
use crate::audio::{le_sample, pcm16le_samples};
use crate::chunk::{first_cut, spec_first_cut, ChunkParams};
use crate::engine::{Task, TranscribeOptions};
use crate::text::{copy_opt_string, join_nonempty, join_parts, owned, trim, views};

verus! {

/// A control frame.
#[derive(Debug)]
pub enum Command {
    Start { model: Option<String>, language: Option<String>, pnc: Option<bool>, itn: Option<bool> },
    Stop,
}

/// What arrived on the socket. A text frame arrives parsed: the command, or
/// why it is not one.
#[derive(Debug)]
pub enum Incoming {
    Text(Result<Command, String>),
    Binary(Vec<u8>),
    /// The peer closed the connection (or the transport failed).
    Close,
    /// A ping or pong: nothing to do.
    Ping,
}

/// What the socket loop does next.
#[derive(Debug, PartialEq, Eq)]
pub enum Step {
    /// Keep reading (after draining any full chunk, see
    /// [`StreamSession::next_chunk`]).
    Continue,
    /// Stop was received: transcribe the remainder and send the final text.
    Finish,
    /// Send an error frame with this message, then close.
    Error(String),
    /// The peer is gone; nothing more to send.
    Disconnected,
}

/// One streaming session.
pub struct StreamSession {
    params: ChunkParams,
    drain_at: usize,
    defaults: ServerDefaults,
    options: Option<TranscribeOptions>,
    buffer: Vec<i16>,
    parts: Vec<String>,
    received: Ghost<Seq<i16>>,
    drained: Ghost<Seq<i16>>,
}

/// The options a session runs with after `start`: the frame's model and
/// toggles, its language or else the server default, toggles defaulting to
/// the server's.
pub open spec fn started_options(
    model: Option<String>,
    language: Option<String>,
    pnc: Option<bool>,
    itn: Option<bool>,
    defaults: ServerDefaults,
) -> TranscribeOptions {
    TranscribeOptions {
        model,
        task: Task::Transcribe,
        language: or_else(language, defaults.language),
        target_language: None,
        pnc: or_else(pnc, defaults.pnc),
        itn: or_else(itn, defaults.itn),
    }
}

/// A start frame's own values win over the server defaults, which only fill
/// what the frame leaves out; the session always transcribes, into no
/// target language.
pub proof fn lemma_start_frame_wins(
    model: Option<String>,
    language: Option<String>,
    pnc: Option<bool>,
    itn: Option<bool>,
    defaults: ServerDefaults,
)
    ensures
        started_options(model, language, pnc, itn, defaults).model == model,
        started_options(model, language, pnc, itn, defaults).task == Task::Transcribe,
        started_options(model, language, pnc, itn, defaults).target_language is None,
        language is Some ==> started_options(model, language, pnc, itn, defaults).language == language,
        language is None ==> started_options(model, language, pnc, itn, defaults).language == defaults.language,
        pnc is Some ==> started_options(model, language, pnc, itn, defaults).pnc == pnc,
        pnc is None ==> started_options(model, language, pnc, itn, defaults).pnc == defaults.pnc,
        itn is Some ==> started_options(model, language, pnc, itn, defaults).itn == itn,
        itn is None ==> started_options(model, language, pnc, itn, defaults).itn == defaults.itn,
{
}

/// The samples a PCM16LE frame holds.
pub open spec fn frame_samples(bytes: Seq<u8>) -> Seq<i16> {
    Seq::new((bytes.len() / 2) as nat, |i: int| le_sample(bytes[2 * i], bytes[2 * i + 1]) as i16)
}

impl StreamSession {
    /// The chunking parameters.
    pub closed spec fn params(&self) -> ChunkParams {
        self.params
    }

    /// How many buffered samples make a chunk ready to drain.
    pub closed spec fn drain_at(&self) -> usize {
        self.drain_at
    }

    /// The server-wide defaults a start frame falls back on.
    pub closed spec fn defaults(&self) -> ServerDefaults {
        self.defaults
    }

    /// Whether `start` was received.
    pub closed spec fn started(&self) -> bool {
        self.options is Some
    }

    /// Options of a started session.
    pub closed spec fn spec_options(&self) -> TranscribeOptions {
        self.options->Some_0
    }

    /// Samples buffered and not yet handed out for transcription.
    pub closed spec fn buffered(&self) -> Seq<i16> {
        self.buffer@
    }

    /// Every sample received so far, in order.
    pub closed spec fn received(&self) -> Seq<i16> {
        self.received@
    }

    /// Every sample handed out for transcription so far, in order.
    pub closed spec fn drained(&self) -> Seq<i16> {
        self.drained@
    }

    /// Texts recorded so far, in order.
    pub closed spec fn partials(&self) -> Seq<Seq<char>> {
        self.parts@.map_values(|s: String| s@)
    }

    /// The session's invariant: what was handed out followed by what is
    /// buffered is exactly what was received.
    pub closed spec fn wf(&self) -> bool {
        &&& self.params.wf()
        &&& self.drain_at >= 1
        &&& self.drained@ + self.buffer@ == self.received@
    }

    /// A fresh session, waiting for `start`. A chunk is drained once
    /// `raw_window` samples (at least one) are buffered; where it is cut is
    /// the chunker's business, with `params`.
    pub fn new(params: ChunkParams, raw_window: usize, defaults: ServerDefaults) -> (s: StreamSession)
        requires
            params.wf(),
        ensures
            s.wf(),
            s.drain_at() == if raw_window == 0 { 1 } else { raw_window },
            !s.started(),
            s.params() == params,
            s.defaults() == defaults,
            s.received() == Seq::<i16>::empty(),
            s.drained() == Seq::<i16>::empty(),
            s.partials() == Seq::<Seq<char>>::empty(),
    {
        let s = StreamSession {
            params,
            drain_at: if raw_window == 0 { 1 } else { raw_window },
            defaults,
            options: None,
            buffer: Vec::new(),
            parts: Vec::new(),
            received: Ghost(Seq::empty()),
            drained: Ghost(Seq::empty()),
        };
        assert(s.parts@.map_values(|x: String| x@) =~= Seq::<Seq<char>>::empty());
        assert(s.drained@ + s.buffer@ =~= s.received@);
        s
    }

    /// Whether `start` was received.
    pub fn is_started(&self) -> (r: bool)
        ensures
            r == self.started(),
    {
        self.options.is_some()
    }

    /// The options a started session transcribes with.
    pub fn options(&self) -> (o: &TranscribeOptions)
        requires
            self.started(),
        ensures
            *o == self.spec_options(),
    {
        self.options.as_ref().unwrap()
    }

    /// React to one incoming message.
    ///
    /// Before `start`: a start frame starts the session; a stop frame, a
    /// binary frame or an unparsable text frame is an error. After it: a
    /// binary frame with a whole number of samples is buffered (an odd one
    /// is an error), stop finishes, a second start or an unparsable text
    /// frame is an error. A close is a disconnect and a ping is ignored in
    /// either phase. Nothing but a binary frame after start changes the
    /// samples, and nothing at all changes the recorded texts.
    pub fn on_message(&mut self, msg: Incoming) -> (step: Step)
        requires
            old(self).wf(),
        ensures
            final(self).wf(),
            final(self).params() == old(self).params(),
            final(self).drain_at() == old(self).drain_at(),
            final(self).defaults() == old(self).defaults(),
            final(self).drained() == old(self).drained(),
            final(self).partials() == old(self).partials(),
            old(self).started() ==> final(self).started() && final(self).spec_options() == old(self).spec_options(),
            match msg {
                Incoming::Close => step == Step::Disconnected && *final(self) == *old(self),
                Incoming::Ping => step == Step::Continue && *final(self) == *old(self),
                Incoming::Text(Err(m)) => step == Step::Error(m) && final(self).received() == old(self).received(),
                Incoming::Text(Ok(Command::Stop)) => final(self).received() == old(self).received() && if old(self).started() {
                    step == Step::Finish
                } else {
                    step matches Step::Error(m) && m@ == "stop before start"@
                },
                Incoming::Text(Ok(Command::Start { model, language, pnc, itn })) => final(self).received() == old(self).received() && if old(self).started() {
                    step matches Step::Error(m) && m@ == "duplicate start"@
                } else {
                    step == Step::Continue && final(self).started() && final(self).spec_options()
                        == started_options(model, language, pnc, itn, old(self).defaults())
                        // The frame's own values win; a server default only fills a gap.
                        && final(self).spec_options().model == model
                        && final(self).spec_options().task == Task::Transcribe
                        && final(self).spec_options().target_language is None
                        && (language is Some ==> final(self).spec_options().language == language)
                        && (language is None ==> final(self).spec_options().language == old(self).defaults().language)
                        && (pnc is Some ==> final(self).spec_options().pnc == pnc)
                        && (pnc is None ==> final(self).spec_options().pnc == old(self).defaults().pnc)
                        && (itn is Some ==> final(self).spec_options().itn == itn)
                        && (itn is None ==> final(self).spec_options().itn == old(self).defaults().itn)
                },
                Incoming::Binary(bytes) => if !old(self).started() {
                    step matches Step::Error(m) && m@ == "binary frame before start"@
                        && final(self).received() == old(self).received()
                } else if bytes@.len() % 2 == 1 {
                    step matches Step::Error(m) && m@ == "odd-length binary frame: expected whole PCM16LE samples"@
                        && final(self).received() == old(self).received()
                } else {
                    step == Step::Continue && final(self).received() == old(self).received() + frame_samples(bytes@)
                        && final(self).buffered() == old(self).buffered() + frame_samples(bytes@)
                },
            },
    {
        match msg {
            Incoming::Close => Step::Disconnected,
            Incoming::Ping => Step::Continue,
            Incoming::Text(Err(m)) => Step::Error(m),
            Incoming::Text(Ok(Command::Stop)) => {
                if self.options.is_some() {
                    Step::Finish
                } else {
                    Step::Error(owned("stop before start"))
                }
            },
            Incoming::Text(Ok(Command::Start { model, language, pnc, itn })) => {
                if self.options.is_some() {
                    Step::Error(owned("duplicate start"))
                } else {
                    let language = match language {
                        Some(l) => Some(l),
                        None => copy_opt_string(&self.defaults.language),
                    };
                    let pnc = match pnc {
                        Some(v) => Some(v),
                        None => self.defaults.pnc,
                    };
                    let itn = match itn {
                        Some(v) => Some(v),
                        None => self.defaults.itn,
                    };
                    self.options = Some(
                        TranscribeOptions { model, task: Task::Transcribe, language, target_language: None, pnc, itn },
                    );
                    Step::Continue
                }
            },
            Incoming::Binary(bytes) => {
                if self.options.is_none() {
                    return Step::Error(owned("binary frame before start"));
                }
                match pcm16le_samples(bytes.as_slice()) {
                    None => Step::Error(owned("odd-length binary frame: expected whole PCM16LE samples")),
                    Some(samples) => {
                        assert(samples@ =~= frame_samples(bytes@));
                        let mut samples = samples;
                        let ghost before = self.buffer@;
                        self.buffer.append(&mut samples);
                        proof {
                            self.received@ = self.received@ + frame_samples(bytes@);
                            assert(self.drained@ + self.buffer@ =~= self.received@);
                        }
                        Step::Continue
                    },
                }
            },
        }
    }

    /// Whether a full window is buffered, i.e. [`StreamSession::next_chunk`]
    /// would hand out a chunk.
    pub fn has_full_window(&self) -> (r: bool)
        ensures
            r == (self.buffered().len() >= self.drain_at()),
    {
        self.buffer.len() >= self.drain_at
    }

    /// With a full window buffered, drain and return its first chunk: the
    /// buffer up to the chunker's first cut (a silence near the window end
    /// when there is one). None while less than a window is buffered.
    pub fn next_chunk(&mut self) -> (chunk: Option<Vec<i16>>)
        requires
            old(self).wf(),
        ensures
            final(self).wf(),
            final(self).params() == old(self).params(),
            final(self).drain_at() == old(self).drain_at(),
            final(self).defaults() == old(self).defaults(),
            final(self).started() == old(self).started(),
            old(self).started() ==> final(self).spec_options() == old(self).spec_options(),
            final(self).received() == old(self).received(),
            final(self).partials() == old(self).partials(),
            old(self).buffered().len() < old(self).drain_at() ==> chunk is None
                && final(self).buffered() == old(self).buffered()
                && final(self).drained() == old(self).drained(),
            old(self).buffered().len() >= old(self).drain_at() ==> (chunk matches Some(c)
                && c@.len() == spec_first_cut(old(self).buffered(), old(self).params())
                && 0 < c@.len() <= old(self).params().max_samples
                && c@ + final(self).buffered() == old(self).buffered()
                && final(self).drained() == old(self).drained() + c@),
    {
        if self.buffer.len() < self.drain_at {
            return None;
        }
        proof {
            crate::chunk::lemma_first_cut(self.buffer@, self.params);
        }
        let cut = first_cut(self.buffer.as_slice(), &self.params);
        let ghost before = self.buffer@;
        let mut chunk = self.buffer.split_off(cut);
        std::mem::swap(&mut chunk, &mut self.buffer);
        proof {
            assert(chunk@ + self.buffer@ =~= before);
            self.drained@ = self.drained@ + chunk@;
            assert(self.drained@ + self.buffer@ =~= self.received@);
        }
        Some(chunk)
    }

    /// Record the text a handed-out chunk was transcribed to.
    pub fn record_partial(&mut self, text: String)
        requires
            old(self).wf(),
        ensures
            final(self).wf(),
            final(self).params() == old(self).params(),
            final(self).drain_at() == old(self).drain_at(),
            final(self).defaults() == old(self).defaults(),
            final(self).started() == old(self).started(),
            old(self).started() ==> final(self).spec_options() == old(self).spec_options(),
            final(self).received() == old(self).received(),
            final(self).drained() == old(self).drained(),
            final(self).buffered() == old(self).buffered(),
            final(self).partials() == old(self).partials().push(text@),
    {
        self.parts.push(text);
        assert(self.parts@.map_values(|s: String| s@) =~= old(self).parts@.map_values(|s: String| s@).push(text@));
    }

    /// After stop: the samples still buffered, drained, if there are any.
    pub fn take_remainder(&mut self) -> (rest: Option<Vec<i16>>)
        requires
            old(self).wf(),
        ensures
            final(self).wf(),
            final(self).params() == old(self).params(),
            final(self).drain_at() == old(self).drain_at(),
            final(self).defaults() == old(self).defaults(),
            final(self).started() == old(self).started(),
            old(self).started() ==> final(self).spec_options() == old(self).spec_options(),
            final(self).received() == old(self).received(),
            final(self).partials() == old(self).partials(),
            final(self).buffered() == Seq::<i16>::empty(),
            final(self).drained() == old(self).received(),
            old(self).buffered().len() == 0 ==> rest is None,
            old(self).buffered().len() > 0 ==> (rest matches Some(r) && r@ == old(self).buffered()),
    {
        if self.buffer.len() == 0 {
            assert(self.drained@ =~= self.received@);
            return None;
        }
        let mut rest: Vec<i16> = Vec::new();
        std::mem::swap(&mut rest, &mut self.buffer);
        proof {
            self.drained@ = self.drained@ + rest@;
            assert(self.drained@ + self.buffer@ =~= self.received@);
        }
        Some(rest)
    }

    /// The final text: every recorded text joined with single spaces, empty
    /// ones skipped.
    pub fn final_text(&self) -> (r: String)
        ensures
            r@ == trim(join_nonempty(self.partials())),
    {
        let mut texts: Vec<&str> = Vec::new();
        let mut i: usize = 0;
        while i < self.parts.len()
            invariant
                i <= self.parts.len(),
                views(texts@) == self.parts@.take(i as int).map_values(|s: String| s@),
            decreases self.parts.len() - i,
        {
            let t = self.parts[i].as_str();
            let ghost before = texts@;
            texts.push(t);
            assert(views(texts@) =~= views(before).push(t@));
            assert(self.parts@.take(i + 1).map_values(|s: String| s@) =~= self.parts@.take(i as int).map_values(|s: String| s@).push(t@));
            i += 1;
        }
        assert(self.parts@.take(self.parts.len() as int) == self.parts@);
        join_parts(texts.as_slice())
    }
}

} // verus!
