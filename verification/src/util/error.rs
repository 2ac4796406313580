//! Error messages and the hints printed after them.
use vstd::prelude::*;

use crate::config::string_views;

verus! {

/// Hints printed after an error.
#[derive(Debug)]
pub struct ErrorHints {
    pub info: Vec<String>,
}

impl Default for ErrorHints {
    fn default() -> (res: ErrorHints)
        ensures
            res.info@.len() == 0,
    {
        ErrorHints { info: Vec::new() }
    }
}

/// Builds `ErrorHints`, each field defaulting when not set.
#[derive(Debug)]
pub struct ErrorHintsBuilder {
    pub info: Option<Vec<String>>,
}

/// The info lines set on a builder so far.
pub open spec fn builder_info(b: ErrorHintsBuilder) -> Seq<Seq<char>> {
    match b.info {
        Some(v) => string_views(v@),
        None => Seq::empty(),
    }
}

fn copy_strings(v: &Vec<String>) -> (res: Vec<String>)
    ensures
        res@ == v@,
{
    let mut out: Vec<String> = Vec::new();
    let mut i: usize = 0;
    while i < v.len()
        invariant
            i <= v.len(),
            out@ == v@.take(i as int),
        decreases v.len() - i,
    {
        let s = v[i].clone();
        proof {
            assert(v@.take(i as int + 1) =~= out@.push(s));
        }
        out.push(s);
        i = i + 1;
    }
    proof {
        assert(v@.take(i as int) =~= v@);
    }
    out
}

impl ErrorHintsBuilder {
    /// A builder with nothing set.
    pub fn new() -> (res: ErrorHintsBuilder)
        ensures
            res.info is None,
    {
        ErrorHintsBuilder { info: None }
    }

    /// Adds an info line after those set so far.
    pub fn add_info(self, info: String) -> (res: ErrorHintsBuilder)
        ensures
            res.info is Some,
            builder_info(res) == builder_info(self).push(info@),
    {
        let mut list = match self.info {
            Some(v) => v,
            None => Vec::new(),
        };
        let ghost before = list@;
        list.push(info);
        proof {
            assert(string_views(list@) =~= string_views(before).push(info@));
        }
        ErrorHintsBuilder { info: Some(list) }
    }

    /// The hints built: the info lines set, none if none were.
    pub fn build(&self) -> (res: ErrorHints)
        ensures
            string_views(res.info@) == builder_info(*self),
    {
        match &self.info {
            Some(v) => ErrorHints { info: copy_strings(v) },
            None => {
                let h = ErrorHints { info: Vec::new() };
                proof {
                    assert(string_views(h.info@) =~= Seq::<Seq<char>>::empty());
                }
                h
            },
        }
    }
}

/// The messages of an error chain that are not empty, in order.
pub open spec fn nonempty_messages(chain: Seq<Seq<char>>) -> Seq<Seq<char>>
    decreases chain.len(),
{
    if chain.len() == 0 {
        Seq::empty()
    } else {
        let rest = nonempty_messages(chain.drop_last());
        if chain.last().len() > 0 {
            rest.push(chain.last())
        } else {
            rest
        }
    }
}

/// The label of the `i`-th printed message of an error chain.
pub open spec fn error_label(i: int) -> Seq<char> {
    if i == 0 {
        "error:"@
    } else {
        "caused by:"@
    }
}

/// A printed error line: its label and its message.
#[derive(Debug)]
pub struct ErrorLine {
    pub label: String,
    pub message: String,
}

/// The lines printed for an error chain (the error, then what caused it): each non-empty
/// message, the first labelled `error:`, the others `caused by:`; without any, one line
/// saying that an undefined error occurred.
pub fn error_lines(chain: &Vec<String>) -> (res: Vec<ErrorLine>)
    ensures
        nonempty_messages(string_views(chain@)).len() == 0 ==> (res@.len() == 1 && res@[0].label@
            == "error:"@ && res@[0].message@ == "an undefined error occurred"@),
        nonempty_messages(string_views(chain@)).len() > 0 ==> (res@.len() == nonempty_messages(
            string_views(chain@),
        ).len() && forall|i: int|
            0 <= i < res@.len() ==> #[trigger] res@[i].label@ == error_label(i) && res@[i].message@
                == nonempty_messages(string_views(chain@))[i]),
{
    let ghost msgs = string_views(chain@);
    let mut out: Vec<ErrorLine> = Vec::new();
    let mut i: usize = 0;
    while i < chain.len()
        invariant
            i <= chain.len(),
            msgs == string_views(chain@),
            out@.len() == nonempty_messages(msgs.take(i as int)).len(),
            forall|j: int| #![trigger out@[j]]
                0 <= j < out@.len() ==> out@[j].label@ == error_label(j) && out@[j].message@
                    == nonempty_messages(msgs.take(i as int))[j],
        decreases chain.len() - i,
    {
        proof {
            assert(msgs.take(i as int + 1).drop_last() =~= msgs.take(i as int));
            assert(msgs.take(i as int + 1).last() == chain@[i as int]@);
        }
        if chain[i].as_str().is_empty() == false {
            let label = if out.len() == 0 {
                "error:".to_owned()
            } else {
                "caused by:".to_owned()
            };
            let line = ErrorLine { label, message: chain[i].clone() };
            let ghost prev = out@;
            out.push(line);
            proof {
                assert(nonempty_messages(msgs.take(i as int + 1)) == nonempty_messages(
                    msgs.take(i as int),
                ).push(chain@[i as int]@));
                assert forall|j: int| #![trigger out@[j]]
                    0 <= j < out@.len() implies out@[j].label@ == error_label(j)
                    && out@[j].message@ == nonempty_messages(msgs.take(i as int + 1))[j] by {
                    if j < prev.len() {
                        assert(out@[j] == prev[j]);
                    }
                }
            }
        } else {
            proof {
                assert(nonempty_messages(msgs.take(i as int + 1)) == nonempty_messages(
                    msgs.take(i as int),
                ));
            }
        }
        i = i + 1;
    }
    proof {
        assert(msgs.take(i as int) =~= msgs);
    }
    if out.len() == 0 {
        out.push(
            ErrorLine {
                label: "error:".to_owned(),
                message: "an undefined error occurred".to_owned(),
            },
        );
    }
    out
}

} // verus!
