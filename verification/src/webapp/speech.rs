use std::collections::VecDeque;
use vstd::prelude::*;
use vstd::std_specs::iter::IteratorSpec;

verus! {

broadcast use vstd::std_specs::vecdeque::group_vec_dequeue_axioms;

/// What a single character of a text becomes when it is read aloud: a line
/// break is read as a space, a full stop ends a line, and quotation marks
/// are dropped.
pub open spec fn speech_char(c: char) -> Seq<char> {
    if c == '\n' {
        seq![' ']
    } else if c == '.' {
        seq!['.', '\n']
    } else if c == '"' || c == '„' || c == '“' {
        Seq::empty()
    } else {
        seq![c]
    }
}

/// A text as it is handed to the speech synthesizer.
pub open spec fn speech_clean(s: Seq<char>) -> Seq<char>
    decreases s.len(),
{
    if s.len() == 0 {
        Seq::empty()
    } else {
        speech_clean(s.drop_last()) + speech_char(s.last())
    }
}

/// Appends a character to a string.
#[verifier::external_body]
fn push_char(s: &mut String, c: char)
    ensures
        final(s)@ == old(s)@.push(c),
{
    s.push(c);
}

/// The text as it is read aloud: line breaks become spaces, every full stop
/// ends a line, and the quotation marks `"`, `„` and `“` are left out.
pub fn speech_text(text: &str) -> (r: String)
    ensures
        r@ == speech_clean(text@),
{
    let mut chars = text.chars();
    let mut r = String::new();
    let ghost mut done: int = 0;
    proof {
        assert(text@.take(0) =~= Seq::<char>::empty());
    }
    loop
        invariant
            0 <= done <= text@.len(),
            chars.remaining() == text@.skip(done),
            r@ == speech_clean(text@.take(done)),
        ensures
            r@ == speech_clean(text@),
        decreases text@.len() - done,
    {
        match chars.next() {
            Some(c) => {
                proof {
                    assert(c == text@[done]);
                    assert(text@.take(done + 1).drop_last() =~= text@.take(done));
                    assert(text@.skip(done).drop_first() =~= text@.skip(done + 1));
                }
                if c == '\n' {
                    push_char(&mut r, ' ');
                } else if c == '.' {
                    push_char(&mut r, '.');
                    push_char(&mut r, '\n');
                } else if c == '"' || c == '„' || c == '“' {
                } else {
                    push_char(&mut r, c);
                }
                proof {
                    assert(r@ =~= speech_clean(text@.take(done)) + speech_char(c));
                    done = done + 1;
                }
            },
            None => {
                proof {
                    assert(text@.take(done) =~= text@);
                }
                break ;
            },
        }
    }
    r
}

/// The state of the speech queue: whether a text is being read, the texts
/// that wait their turn, and those that wait for a voice to be chosen.
pub struct SpeechState {
    pub playing: bool,
    pub queue: VecDeque<String>,
    pub retry: Vec<String>,
}

/// What happens to the speech queue: a text is to be read (with whether a
/// voice is chosen, and whether one was chosen in an earlier visit), or the
/// text being read has ended.
pub enum SpeechMsg {
    Play { text: String, voice: bool, stored_voice: bool },
    End,
}

/// What the synthesizer is to do next.
pub enum SpeechAction {
    Speak(String),
    Nothing,
}

/// The next state of the speech queue and what the synthesizer is to do.
/// A text to read is cleaned with [`speech_text`]; with a voice it is read
/// at once when nothing is being read, and queued otherwise; without a voice
/// it is kept for later where a voice was chosen before, and dropped where
/// none was. At the end of a text the first queued one is read, or reading
/// stops where none waits.
pub fn speech_step(state: SpeechState, msg: SpeechMsg) -> (r: (SpeechState, SpeechAction))
    ensures
        match msg {
            SpeechMsg::Play { text, voice, stored_voice } => if voice {
                if state.playing {
                    &&& r.0.playing
                    &&& r.0.queue@.len() == state.queue@.len() + 1
                    &&& r.0.queue@.drop_last() == state.queue@
                    &&& r.0.queue@.last()@ == speech_clean(text@)
                    &&& r.0.retry == state.retry
                    &&& r.1 is Nothing
                } else {
                    &&& r.0.playing
                    &&& r.0.queue@ == state.queue@
                    &&& r.0.retry == state.retry
                    &&& r.1 matches SpeechAction::Speak(t) && t@ == speech_clean(text@)
                }
            } else {
                &&& r.0.playing == state.playing
                &&& r.0.queue@ == state.queue@
                &&& (if stored_voice {
                    &&& r.0.retry@.len() == state.retry@.len() + 1
                    &&& r.0.retry@.drop_last() == state.retry@
                    &&& r.0.retry@.last()@ == speech_clean(text@)
                } else {
                    r.0.retry == state.retry
                })
                &&& r.1 is Nothing
            },
            SpeechMsg::End => if state.queue@.len() > 0 {
                &&& r.0.playing == state.playing
                &&& r.0.queue@ == state.queue@.drop_first()
                &&& r.0.retry == state.retry
                &&& r.1 == SpeechAction::Speak(state.queue@[0])
            } else {
                &&& !r.0.playing
                &&& r.0.queue@ == state.queue@
                &&& r.0.retry == state.retry
                &&& r.1 is Nothing
            },
        },
{
    let SpeechState { playing, mut queue, mut retry } = state;
    match msg {
        SpeechMsg::Play { text, voice, stored_voice } => {
            let cleaned = speech_text(text.as_str());
            if voice {
                if playing {
                    queue.push_back(cleaned);
                    proof {
                        assert(queue@.drop_last() =~= state.queue@);
                    }
                    (SpeechState { playing: true, queue, retry }, SpeechAction::Nothing)
                } else {
                    (SpeechState { playing: true, queue, retry }, SpeechAction::Speak(cleaned))
                }
            } else {
                if stored_voice {
                    retry.push(cleaned);
                    proof {
                        assert(retry@.drop_last() =~= state.retry@);
                    }
                }
                (SpeechState { playing, queue, retry }, SpeechAction::Nothing)
            }
        },
        SpeechMsg::End => {
            match queue.pop_front() {
                Some(next) => {
                    proof {
                        assert(queue@ =~= state.queue@.drop_first());
                    }
                    (SpeechState { playing, queue, retry }, SpeechAction::Speak(next))
                },
                None => (SpeechState { playing: false, queue, retry }, SpeechAction::Nothing),
            }
        },
    }
}

/// Whether the text begins with the prefix.
pub fn starts_with(text: &str, prefix: &str) -> (r: bool)
    ensures
        r == prefix@.is_prefix_of(text@),
{
    let mut pc = prefix.chars();
    let mut tc = text.chars();
    let ghost mut k: int = 0;
    loop
        invariant
            0 <= k <= prefix@.len(),
            k <= text@.len(),
            pc.remaining() == prefix@.skip(k),
            tc.remaining() == text@.skip(k),
            prefix@.take(k) == text@.take(k),
        decreases prefix@.len() - k,
    {
        match pc.next() {
            None => {
                proof {
                    assert(prefix@.take(k) =~= prefix@);
                    assert(prefix@ =~= text@.subrange(0, prefix@.len() as int));
                }
                return true;
            },
            Some(c) => {
                match tc.next() {
                    None => {
                        return false;
                    },
                    Some(d) => {
                        if c != d {
                            proof {
                                assert(prefix@[k] != text@[k]);
                                if prefix@.is_prefix_of(text@) {
                                    assert(text@.subrange(0, prefix@.len() as int)[k] == text@[k]);
                                }
                            }
                            return false;
                        }
                        proof {
                            assert(prefix@.take(k + 1) =~= prefix@.take(k).push(c));
                            assert(text@.take(k + 1) =~= text@.take(k).push(d));
                            assert(prefix@.skip(k).drop_first() =~= prefix@.skip(k + 1));
                            assert(text@.skip(k).drop_first() =~= text@.skip(k + 1));
                            k = k + 1;
                        }
                    },
                }
            },
        }
    }
}

/// A voice of the speech synthesizer: its name and its language.
pub struct Voice {
    pub name: String,
    pub lang: String,
}

/// The voices whose language begins with `lang`, in their order.
pub open spec fn with_lang(s: Seq<Voice>, lang: Seq<char>) -> Seq<Voice>
    decreases s.len(),
{
    if s.len() == 0 {
        s
    } else if lang.is_prefix_of(s.last().lang@) {
        with_lang(s.drop_last(), lang).push(s.last())
    } else {
        with_lang(s.drop_last(), lang)
    }
}

/// The place of the last voice of the name.
pub open spec fn last_named(s: Seq<Voice>, name: Seq<char>) -> Option<int>
    decreases s.len(),
{
    if s.len() == 0 {
        None
    } else if s.last().name@ == name {
        Some(s.len() - 1)
    } else {
        last_named(s.drop_last(), name)
    }
}

/// The voices of the synthesizer that speak the language, the voice chosen,
/// the texts still held for a voice, and those to read now. The voices kept
/// are those whose language begins with `lang`. Where the voice chosen in an
/// earlier visit (`stored`) is among them, it is chosen again (the last of
/// that name) and the held texts are read now; otherwise the choice and the
/// held texts stay.
pub fn update_voices(all: Vec<Voice>, lang: &str, stored: Option<String>, voice: Option<usize>, retry: Vec<String>) -> (r: (
    Vec<Voice>,
    Option<usize>,
    Vec<String>,
    Vec<String>,
))
    ensures
        r.0@ == with_lang(all@, lang@),
        match stored {
            Some(n) => match last_named(r.0@, n@) {
                Some(i) => r.1 == Some(i as usize) && r.2@.len() == 0 && r.3 == retry,
                None => r.1 == voice && r.2 == retry && r.3@.len() == 0,
            },
            None => r.1 == voice && r.2 == retry && r.3@.len() == 0,
        },
{
    let ghost av = all@;
    let mut all = all;
    let mut kept: Vec<Voice> = Vec::new();
    let mut i: usize = 0;
    let n = all.len();
    proof {
        assert(av.take(0) =~= Seq::<Voice>::empty());
    }
    while all.len() > 0
        invariant
            i + all@.len() == n,
            n == av.len(),
            all@ == av.skip(i as int),
            kept@ == with_lang(av.take(i as int), lang@),
        decreases all.len(),
    {
        let v = all.remove(0);
        proof {
            assert(v == av[i as int]);
            assert(av.take(i + 1).drop_last() =~= av.take(i as int));
            assert(av.take(i + 1).last() == av[i as int]);
            assert(all@ =~= av.skip(i + 1));
        }
        if starts_with(v.lang.as_str(), lang) {
            kept.push(v);
        }
        i += 1;
    }
    proof {
        assert(av.take(n as int) =~= av);
    }
    let mut chosen = voice;
    let mut held = retry;
    let mut replay: Vec<String> = Vec::new();
    match &stored {
        Some(name) => {
            let ghost kv = kept@;
            let mut found: Option<usize> = None;
            let mut j: usize = 0;
            while j < kept.len()
                invariant
                    j <= kept.len(),
                    kv == kept@,
                    match found {
                        Some(f) => last_named(kv.take(j as int), name@) == Some(f as int),
                        None => last_named(kv.take(j as int), name@) is None,
                    },
                decreases kept.len() - j,
            {
                proof {
                    assert(kv.take(j + 1).drop_last() =~= kv.take(j as int));
                    assert(kv.take(j + 1).last() == kv[j as int]);
                }
                if kept[j].name.eq(name) {
                    found = Some(j);
                }
                j += 1;
            }
            proof {
                assert(kv.take(kept.len() as int) =~= kv);
            }
            match found {
                Some(f) => {
                    chosen = Some(f);
                    replay = held;
                    held = Vec::new();
                },
                None => {},
            }
        },
        None => {},
    }
    (kept, chosen, held, replay)
}

/// Choosing a voice of the list, or none: the voice chosen and the name to
/// remember (none to forget the choice). The start text is read again after.
pub fn set_voice(voices: &Vec<Voice>, idx: Option<usize>) -> (r: (Option<usize>, Option<String>))
    requires
        idx matches Some(i) ==> i < voices@.len(),
    ensures
        r.0 == idx,
        match idx {
            Some(i) => r.1 is Some && r.1->0@ == voices@[i as int].name@,
            None => r.1 is None,
        },
{
    match idx {
        Some(i) => (Some(i), Some(voices[i].name.clone())),
        None => (None, None),
    }
}

} // verus!
