//! Splits a sequence of raw argument strings into positional tokens and flag
//! tokens (key plus optional inline value).

use vstd::prelude::*;
use vstd::string::StrSliceExecFns;
use vstd::string::StringExecFns;

use crate::text::chars_of;

verus! {

/// One raw argument, classified.
pub enum Arg {
    /// A positional argument, passed through verbatim.
    Arg(String),
    /// A flag token.
    Flag(FlagStruct),
}

/// A flag token: the text before the first `=` is the key; the text after it,
/// if any, is the inline value.
pub struct FlagStruct {
    pub key: String,
    pub val: Option<String>,
}

/// Mathematical counterpart of [`Arg`].
pub enum ArgV {
    Arg(Seq<char>),
    Flag(FlagTokenV),
}

/// Mathematical counterpart of [`FlagStruct`].
pub struct FlagTokenV {
    pub key: Seq<char>,
    pub val: Option<Seq<char>>,
}

impl View for FlagStruct {
    type V = FlagTokenV;

    open spec fn view(&self) -> FlagTokenV {
        FlagTokenV {
            key: self.key@,
            val: match self.val {
                Some(v) => Some(v@),
                None => None,
            },
        }
    }
}

impl View for Arg {
    type V = ArgV;

    open spec fn view(&self) -> ArgV {
        match self {
            Arg::Arg(s) => ArgV::Arg(s@),
            Arg::Flag(f) => ArgV::Flag(f@),
        }
    }
}

/// A raw argument is a flag token if and only if it starts with `-`.
pub open spec fn tok_is_flag(s: Seq<char>) -> bool {
    s.len() > 0 && s[0] == '-'
}

/// Index of the first `=` at or after position `i`, if any.
pub open spec fn find_eq_from(s: Seq<char>, i: int) -> Option<int>
    decreases s.len() - i,
{
    if i < 0 || i >= s.len() {
        None
    } else if s[i] == '=' {
        Some(i)
    } else {
        find_eq_from(s, i + 1)
    }
}

/// The key of a flag token: the whole token, or the part before the first `=`.
pub open spec fn flag_key(s: Seq<char>) -> Seq<char> {
    match find_eq_from(s, 0) {
        Some(i) => s.subrange(0, i),
        None => s,
    }
}

/// The inline value of a flag token: the part after the first `=`, which may
/// be empty, or absent when the token holds no `=`.
pub open spec fn flag_val(s: Seq<char>) -> Option<Seq<char>> {
    match find_eq_from(s, 0) {
        Some(i) => Some(s.subrange(i + 1, s.len() as int)),
        None => None,
    }
}

/// How one raw argument is classified.
pub open spec fn classify(s: Seq<char>) -> ArgV {
    if tok_is_flag(s) {
        ArgV::Flag(FlagTokenV { key: flag_key(s), val: flag_val(s) })
    } else {
        ArgV::Arg(s)
    }
}

pub proof fn lemma_find_eq_skip(s: Seq<char>, i: int, j: int)
    requires
        0 <= i <= j <= s.len(),
        forall|k: int| i <= k < j ==> s[k] != '=',
    ensures
        find_eq_from(s, i) == find_eq_from(s, j),
    decreases j - i,
{
    if i < j {
        lemma_find_eq_skip(s, i + 1, j);
    }
}

/// Classifies one raw argument string.
pub fn classify_arg(raw: String) -> (r: Arg)
    ensures
        r@ == classify(raw@),
{
    let chars = chars_of(raw.as_str());
    if chars.len() == 0 || chars[0] != '-' {
        return Arg::Arg(raw);
    }
    let n = chars.len();
    let mut i: usize = 0;
    while i < n
        invariant
            n == chars.len(),
            chars@ == raw@,
            tok_is_flag(raw@),
            i <= n,
            forall|k: int| 0 <= k < i ==> raw@[k] != '=',
        decreases n - i,
    {
        if chars[i] == '=' {
            proof {
                lemma_find_eq_skip(raw@, 0, i as int);
                assert(find_eq_from(raw@, 0) == Some(i as int));
            }
            let key = raw.as_str().substring_char(0, i);
            let val = raw.as_str().substring_char(i + 1, n);
            let r = Arg::Flag(FlagStruct { key: key.to_owned(), val: Some(val.to_owned()) });
            proof {
                assert(tok_is_flag(raw@));
                assert(flag_key(raw@) == raw@.subrange(0, i as int));
                assert(flag_val(raw@) == Some(raw@.subrange(i as int + 1, raw@.len() as int)));
            }
            return r;
        }
        i += 1;
    }
    proof {
        lemma_find_eq_skip(raw@, 0, n as int);
        assert(find_eq_from(raw@, 0) is None);
    }
    Arg::Flag(FlagStruct { key: raw, val: None })
}

/// A single-pass, non-restartable stream of classified arguments.
pub struct FlagIterator {
    args: Vec<String>,
    pos: usize,
}

impl FlagIterator {
    /// The raw argument strings not yet consumed, in order.
    pub closed spec fn remaining(&self) -> Seq<Seq<char>> {
        if self.pos as int <= self.args.deep_view().len() {
            self.args.deep_view().skip(self.pos as int)
        } else {
            Seq::empty()
        }
    }

    /// Builds the stream over a vector of raw argument strings.
    pub fn from_args(args: Vec<String>) -> (r: Self)
        ensures
            r.remaining() == args.deep_view(),
    {
        let r = FlagIterator { args, pos: 0 };
        proof {
            assert(r.remaining() =~= r.args.deep_view());
        }
        r
    }

    /// Consumes and classifies the next raw argument, if any.
    pub fn next(&mut self) -> (r: Option<Arg>)
        ensures
            match r {
                None => old(self).remaining().len() == 0 && final (self).remaining()
                    == old(self).remaining(),
                Some(a) => old(self).remaining().len() > 0 && a@ == classify(
                    old(self).remaining()[0],
                ) && final (self).remaining() == old(self).remaining().drop_first(),
            },
    {
        if self.pos < self.args.len() {
            let raw = self.args[self.pos].clone();
            proof {
                assert(raw@ == old(self).remaining()[0]);
            }
            self.pos += 1;
            proof {
                assert(self.remaining() =~= old(self).remaining().drop_first());
            }
            Some(classify_arg(raw))
        } else {
            None
        }
    }

    /// Consumes the next raw argument and hands it back verbatim, whatever its
    /// shape; yields nothing only when the stream is exhausted.
    pub fn next_arg(&mut self) -> (r: Option<String>)
        ensures
            match r {
                None => old(self).remaining().len() == 0 && final (self).remaining()
                    == old(self).remaining(),
                Some(v) => old(self).remaining().len() > 0 && v@ == old(self).remaining()[0]
                    && final (self).remaining() == old(self).remaining().drop_first(),
            },
    {
        if self.pos < self.args.len() {
            let raw = self.args[self.pos].clone();
            proof {
                assert(raw@ == old(self).remaining()[0]);
            }
            self.pos += 1;
            proof {
                assert(self.remaining() =~= old(self).remaining().drop_first());
            }
            Some(raw)
        } else {
            None
        }
    }
}

} // verus!
