//! A ready-made value domain and constructor vocabulary over text.
//!
//! The engine is generic over the value type and the constructor type; this
//! module supplies one concrete pair, enough to wire up registries whose
//! values carry text payloads: a value is a piece of text, a list of texts,
//! or the unit value, and a constructor appends a suffix, replaces a value,
//! pushes onto a list, concatenates a bridged pair, or fails.  Each
//! constructor's specification functions pin its behaviour exactly.
use vstd::prelude::*;

use crate::constructed::{
    ctor_out_matches, hook_out_matches, pair_out_matches, Construct, CtorOut, CtorStep, HookOut,
    HookStep, PairOut, PairStep,
};
use crate::error::Error;
use crate::slot_table::items_viewed;

verus! {

/// A plain value: a piece of text, a list of texts, or the unit value.
#[derive(Debug)]
pub enum Payload {
    Text(String),
    List(Vec<String>),
    Unit,
}

/// The mathematical counterpart of `Payload`.
pub enum PayloadView {
    Text(Seq<char>),
    List(Seq<Seq<char>>),
    Unit,
}

impl View for Payload {
    type V = PayloadView;

    open spec fn view(&self) -> PayloadView {
        match *self {
            Payload::Text(ref s) => PayloadView::Text(s@),
            Payload::List(ref l) => PayloadView::List(items_viewed(l@)),
            Payload::Unit => PayloadView::Unit,
        }
    }
}

/// One constructor over `Payload` values.
pub enum PayloadCtor {
    /// As a child constructor: for a `Text` parent, constructs a child
    /// text that is the parent's text followed by `suffix`, leaving the
    /// parent as it was.  As a hook it leaves the value unchanged.
    AppendSuffix { suffix: String },
    /// Replaces any value with `Text(text)`; the constructed child is the
    /// unit value.
    ReplaceText { text: String },
    /// For a `List` value, pushes `text` onto it; the constructed child is
    /// the unit value.
    PushText { text: String },
    /// As a bridging function: for two `Text` parents, constructs the
    /// two-element list of their texts, leaving both parents as they were.
    ConcatPair,
    /// Fails with `message` in every role.
    FailWith { message: String },
}

impl Construct<Payload> for PayloadCtor {
    open spec fn construct_spec(&self, value: PayloadView) -> CtorStep<PayloadView> {
        match *self {
            PayloadCtor::AppendSuffix { ref suffix } => match value {
                PayloadView::Text(s) => CtorStep::Made {
                    value: PayloadView::Text(s),
                    child: PayloadView::Text(s + suffix@),
                },
                _ => CtorStep::Failed { value, message: "expected a text value"@ },
            },
            PayloadCtor::ReplaceText { ref text } => CtorStep::Made {
                value: PayloadView::Text(text@),
                child: PayloadView::Unit,
            },
            PayloadCtor::PushText { ref text } => match value {
                PayloadView::List(l) => CtorStep::Made {
                    value: PayloadView::List(l.push(text@)),
                    child: PayloadView::Unit,
                },
                _ => CtorStep::Failed { value, message: "expected a list value"@ },
            },
            PayloadCtor::ConcatPair => CtorStep::Failed {
                value,
                message: "a pair constructor cannot run alone"@,
            },
            PayloadCtor::FailWith { ref message } => CtorStep::Failed { value, message: message@ },
        }
    }

    open spec fn hook_spec(&self, value: PayloadView) -> HookStep<PayloadView> {
        match *self {
            PayloadCtor::AppendSuffix { .. } => HookStep::Done { value },
            _ => match self.construct_spec(value) {
                CtorStep::Made { value: v2, .. } => HookStep::Done { value: v2 },
                CtorStep::Failed { value: v2, message } => HookStep::Failed {
                    value: v2,
                    message,
                },
            },
        }
    }

    open spec fn pair_spec(&self, a: PayloadView, b: PayloadView) -> PairStep<PayloadView> {
        match *self {
            PayloadCtor::ConcatPair => match (a, b) {
                (PayloadView::Text(x), PayloadView::Text(y)) => PairStep::Made {
                    a: PayloadView::Text(x),
                    b: PayloadView::Text(y),
                    child: PayloadView::List(seq![x, y]),
                },
                _ => PairStep::Failed { a, b, message: "expected two text values"@ },
            },
            PayloadCtor::FailWith { ref message } => PairStep::Failed { a, b, message: message@ },
            _ => PairStep::Failed { a, b, message: "not a bridging function"@ },
        }
    }

    fn construct(&self, value: Payload) -> (r: CtorOut<Payload>) {
        match *self {
            PayloadCtor::AppendSuffix { ref suffix } => match value {
                Payload::Text(s) => {
                    let child = s.clone().concat(suffix.as_str());
                    CtorOut::Made { value: Payload::Text(s), child: Payload::Text(child) }
                },
                other => CtorOut::Failed {
                    value: other,
                    error: Error::new("expected a text value".to_owned()),
                },
            },
            PayloadCtor::ReplaceText { ref text } => CtorOut::Made {
                value: Payload::Text(text.clone()),
                child: Payload::Unit,
            },
            PayloadCtor::PushText { ref text } => match value {
                Payload::List(mut l) => {
                    let ghost l0 = l@;
                    let cloned = text.clone();
                    l.push(cloned);
                    proof {
                        crate::slot_table::lemma_items_viewed_push(l0, cloned);
                    }
                    CtorOut::Made { value: Payload::List(l), child: Payload::Unit }
                },
                other => CtorOut::Failed {
                    value: other,
                    error: Error::new("expected a list value".to_owned()),
                },
            },
            PayloadCtor::ConcatPair => CtorOut::Failed {
                value,
                error: Error::new("a pair constructor cannot run alone".to_owned()),
            },
            PayloadCtor::FailWith { ref message } => CtorOut::Failed {
                value,
                error: Error::new(message.clone()),
            },
        }
    }

    fn hook(&self, value: Payload) -> (r: HookOut<Payload>) {
        match *self {
            PayloadCtor::AppendSuffix { .. } => HookOut::Done { value },
            _ => match self.construct(value) {
                CtorOut::Made { value: v2, child: _c } => HookOut::Done { value: v2 },
                CtorOut::Failed { value: v2, error } => HookOut::Failed { value: v2, error },
            },
        }
    }

    fn pair(&self, a: Payload, b: Payload) -> (r: PairOut<Payload>) {
        match *self {
            PayloadCtor::ConcatPair => match (a, b) {
                (Payload::Text(x), Payload::Text(y)) => {
                    let mut list: Vec<String> = Vec::new();
                    list.push(x.clone());
                    list.push(y.clone());
                    proof {
                        assert(items_viewed(list@) =~= seq![x@, y@]);
                    }
                    PairOut::Made {
                        a: Payload::Text(x),
                        b: Payload::Text(y),
                        child: Payload::List(list),
                    }
                },
                (oa, ob) => PairOut::Failed {
                    a: oa,
                    b: ob,
                    error: Error::new("expected two text values".to_owned()),
                },
            },
            PayloadCtor::FailWith { ref message } => PairOut::Failed {
                a,
                b,
                error: Error::new(message.clone()),
            },
            _ => PairOut::Failed {
                a,
                b,
                error: Error::new("not a bridging function".to_owned()),
            },
        }
    }
}

} // verus!
