//! Where file contents come from.
use vstd::prelude::*;

verus! {

/// A source of file contents.
pub trait Callback: Sized {
    /// The callback may give `content`, and then stand as `after`. A source that
    /// says nothing of itself may give anything.
    open spec fn gives(self, content: Seq<u8>, after: Self) -> bool {
        true
    }

    /// Generate the next content.
    fn generate(&mut self) -> (content: Vec<u8>)
        ensures
            old(self).gives(content@, *final(self)),
    ;
}

/// A source that plays prepared contents.
#[derive(Debug)]
pub enum Playlist {
    /// The same content for ever.
    Always(Vec<u8>),
    /// The contents from the given place on, one after the other, then nothing.
    Sequence { values: Vec<Vec<u8>>, next: usize },
}

impl Playlist {
    /// The content that comes next.
    pub open spec fn content(self) -> Seq<u8> {
        match self {
            Playlist::Always(value) => value@,
            Playlist::Sequence { values, next } => if next < values@.len() {
                values@[next as int]@
            } else {
                Seq::empty()
            },
        }
    }

    /// The source once the content that comes next was taken.
    pub open spec fn rest(self) -> Playlist {
        match self {
            Playlist::Always(_) => self,
            Playlist::Sequence { values, next } => if next < values@.len() {
                Playlist::Sequence { values, next: (next + 1) as usize }
            } else {
                self
            },
        }
    }

    /// The source after `n` contents were taken.
    pub open spec fn after(self, n: nat) -> Playlist
        decreases n,
    {
        if n == 0 {
            self
        } else {
            self.after((n - 1) as nat).rest()
        }
    }
}

fn copied(bytes: &Vec<u8>) -> (copy: Vec<u8>)
    ensures
        copy@ == bytes@,
{
    let mut copy: Vec<u8> = Vec::new();
    let mut i: usize = 0;
    while i < bytes.len()
        invariant
            i <= bytes@.len(),
            copy@ == bytes@.take(i as int),
        decreases bytes@.len() - i,
    {
        copy.push(bytes[i]);
        i += 1;
    }
    copy
}

impl Callback for Playlist {
    open spec fn gives(self, content: Seq<u8>, after: Playlist) -> bool {
        content == self.content() && after == self.rest()
    }

    fn generate(&mut self) -> (content: Vec<u8>) {
        let (content, step) = match &*self {
            Playlist::Always(value) => (copied(value), false),
            Playlist::Sequence { values, next } => if *next < values.len() {
                (copied(&values[*next]), true)
            } else {
                (Vec::new(), false)
            },
        };
        if step {
            if let Playlist::Sequence { next, .. } = self {
                *next = *next + 1;
            }
        }
        content
    }
}

/// A static source gives the same content for ever.
pub proof fn law_static_source_never_changes(value: Vec<u8>, n: nat)
    ensures
        Playlist::Always(value).after(n).content() == value@,
    decreases n,
{
    if n > 0 {
        law_static_source_never_changes(value, (n - 1) as nat);
        lemma_static_rest(value, n);
    }
}

proof fn lemma_static_rest(value: Vec<u8>, n: nat)
    ensures
        Playlist::Always(value).after(n) == Playlist::Always(value),
    decreases n,
{
    if n > 0 {
        lemma_static_rest(value, (n - 1) as nat);
    }
}

/// A sequence gives its contents in order, each once, and nothing after the last.
pub proof fn law_sequence_advances_then_ends(values: Vec<Vec<u8>>, n: nat)
    ensures
        ({
            let source = (Playlist::Sequence { values, next: 0 }).after(n);
            source.content() == if n < values@.len() {
                values@[n as int]@
            } else {
                Seq::<u8>::empty()
            }
        }),
{
    assert(values.len() == values@.len());
    lemma_sequence_place(values, n);
}

proof fn lemma_sequence_place(values: Vec<Vec<u8>>, n: nat)
    ensures
        (Playlist::Sequence { values, next: 0 }).after(n) == (Playlist::Sequence {
            values,
            next: if n < values.len() {
                n as usize
            } else {
                values.len()
            },
        }),
    decreases n,
{
    assert(values.len() == values@.len());
    if n > 0 {
        lemma_sequence_place(values, (n - 1) as nat);
    }
}

} // verus!
