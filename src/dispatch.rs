//! A handler that tries a list of handlers in order.

use vstd::prelude::*;

use crate::error::{Error, ErrorKind};
use crate::handler::{is_unsupported, outcome_of, ReadOutcome, ResourceUrlHandler};
use crate::location::ResourceUrl;
use crate::mime_data::MimeData;

verus! {

/// The message of the error for a URL that no handler of a list supports.
pub open spec fn exhausted_message(url: Seq<char>) -> Seq<char> {
    "No handler supported reading from "@ + url
}

/// The error for a URL that no handler of a list supports.
pub open spec fn exhausted_outcome(url: ResourceUrl) -> ReadOutcome {
    Err((ErrorKind::Unsupported, exhausted_message(url.text_view())))
}

/// Whether handler `j` of `handlers` may decline `url`, that is fail with
/// `Unsupported`.
pub open spec fn may_decline(
    handlers: Seq<Box<dyn ResourceUrlHandler>>,
    j: int,
    url: ResourceUrl,
) -> bool {
    exists|m: Seq<char>| #[trigger] handlers[j].read_outcome(url, Err((ErrorKind::Unsupported, m)))
}

/// Whether trying `handlers` in order on `url` may give `r`.
///
/// The first handler that does not decline decides: what it returns, data or
/// error, is the result. Where every handler declines, the result is the
/// error of [`exhausted_outcome`].
pub open spec fn dispatch_outcome(
    handlers: Seq<Box<dyn ResourceUrlHandler>>,
    url: ResourceUrl,
    r: ReadOutcome,
) -> bool
    decreases handlers.len(),
{
    if handlers.len() == 0 {
        r == exhausted_outcome(url)
    } else {
        ||| !is_unsupported(r) && handlers[0].read_outcome(url, r)
        ||| may_decline(handlers, 0, url) && dispatch_outcome(handlers.drop_first(), url, r)
    }
}

/// A handler that dispatches reading among a list of inner handlers.
pub struct DispatchingResourceHandler {
    handlers: Vec<Box<dyn ResourceUrlHandler>>,
}

impl DispatchingResourceHandler {
    /// The inner handlers, in the order in which they are tried.
    pub closed spec fn handlers_view(&self) -> Seq<Box<dyn ResourceUrlHandler>> {
        self.handlers@
    }

    /// A handler that tries `handlers` in the order given.
    pub fn new(handlers: Vec<Box<dyn ResourceUrlHandler>>) -> (r: Self)
        ensures
            r.handlers_view() == handlers@,
    {
        DispatchingResourceHandler { handlers }
    }
}

/// Where the first `i` handlers may decline `url`, what the handlers from
/// `i` on may give, the whole list may give.
proof fn lemma_dispatch_after_declines(
    handlers: Seq<Box<dyn ResourceUrlHandler>>,
    i: int,
    url: ResourceUrl,
    r: ReadOutcome,
)
    requires
        0 <= i <= handlers.len(),
        forall|j: int| 0 <= j < i ==> may_decline(handlers, j, url),
        dispatch_outcome(handlers.subrange(i, handlers.len() as int), url, r),
    ensures
        dispatch_outcome(handlers, url, r),
    decreases i,
{
    if i > 0 {
        let rest = handlers.drop_first();
        assert(rest.subrange(i - 1, rest.len() as int) == handlers.subrange(i, handlers.len() as int));
        assert(rest.len() == handlers.len() - 1);
        assert forall|j: int| 0 <= j < i - 1 implies may_decline(rest, j, url) by {
            assert(may_decline(handlers, j + 1, url));
            let m = choose|m: Seq<char>|
                #[trigger] handlers[j + 1].read_outcome(url, Err((ErrorKind::Unsupported, m)));
            assert(rest[j] == handlers[j + 1]);
            assert(rest[j].read_outcome(url, Err((ErrorKind::Unsupported, m))));
        }
        lemma_dispatch_after_declines(rest, i - 1, url, r);
    } else {
        assert(handlers.subrange(0, handlers.len() as int) == handlers);
    }
}

impl ResourceUrlHandler for DispatchingResourceHandler {
    /// The inner handlers are tried in order, as [`dispatch_outcome`] says.
    open spec fn read_outcome(&self, url: ResourceUrl, r: ReadOutcome) -> bool {
        dispatch_outcome(self.handlers_view(), url, r)
    }

    /// Try every inner handler in turn while they fail with `Unsupported`;
    /// return the first other result, data or error.
    fn read_resource(&self, url: &ResourceUrl) -> (r: Result<MimeData, Error>) {
        let mut i: usize = 0;
        while i < self.handlers.len()
            invariant
                i <= self.handlers@.len(),
                forall|j: int| 0 <= j < i ==> may_decline(self.handlers@, j, *url),
            decreases self.handlers@.len() - i,
        {
            let outcome = self.handlers[i].read_resource(url);
            let ghost hs = self.handlers@;
            match outcome {
                Ok(data) => {
                    proof {
                        lemma_dispatch_after_declines(hs, i as int, *url, Ok(data));
                    }
                    return Ok(data);
                },
                Err(error) => {
                    if error.is_unsupported() {
                        assert(hs[i as int].read_outcome(*url, Err(error@)));
                        assert(may_decline(hs, i as int, *url));
                        i = i + 1;
                    } else {
                        proof {
                            lemma_dispatch_after_declines(hs, i as int, *url, Err(error@));
                        }
                        return Err(error);
                    }
                },
            }
        }
        let mut message = String::from_str("No handler supported reading from ");
        message.append(url.as_str());
        let r: Result<MimeData, Error> = Err(Error { kind: ErrorKind::Unsupported, message });
        proof {
            let hs = self.handlers@;
            assert(hs.subrange(i as int, hs.len() as int).len() == 0);
            lemma_dispatch_after_declines(hs, i as int, *url, outcome_of(r));
        }
        r
    }
}

/// Whether trying `handlers` in order on `url` may end in `Unsupported`.
pub open spec fn dispatch_may_decline(
    handlers: Seq<Box<dyn ResourceUrlHandler>>,
    url: ResourceUrl,
) -> bool {
    exists|m: Seq<char>| #[trigger] dispatch_outcome(handlers, url, Err((ErrorKind::Unsupported, m)))
}

/// Whether `a` and `b` are lists of equal length whose handlers, position by
/// position, may give the same results on `url`.
pub open spec fn same_outcomes(
    a: Seq<Box<dyn ResourceUrlHandler>>,
    b: Seq<Box<dyn ResourceUrlHandler>>,
    url: ResourceUrl,
) -> bool {
    &&& a.len() == b.len()
    &&& forall|i: int, r: ReadOutcome|
        #![trigger a[i].read_outcome(url, r)]
        #![trigger b[i].read_outcome(url, r)]
        0 <= i < a.len() ==> a[i].read_outcome(url, r) == b[i].read_outcome(url, r)
}

/// Lists whose handlers may give the same results dispatch alike.
proof fn lemma_same_outcomes_dispatch_alike(
    a: Seq<Box<dyn ResourceUrlHandler>>,
    b: Seq<Box<dyn ResourceUrlHandler>>,
    url: ResourceUrl,
    r: ReadOutcome,
)
    requires
        same_outcomes(a, b, url),
    ensures
        dispatch_outcome(a, url, r) == dispatch_outcome(b, url, r),
    decreases a.len(),
{
    if a.len() > 0 {
        assert(may_decline(a, 0, url) == may_decline(b, 0, url)) by {
            if may_decline(a, 0, url) {
                let m = choose|m: Seq<char>|
                    #[trigger] a[0].read_outcome(url, Err((ErrorKind::Unsupported, m)));
                assert(b[0].read_outcome(url, Err((ErrorKind::Unsupported, m))));
            }
            if may_decline(b, 0, url) {
                let m = choose|m: Seq<char>|
                    #[trigger] b[0].read_outcome(url, Err((ErrorKind::Unsupported, m)));
                assert(a[0].read_outcome(url, Err((ErrorKind::Unsupported, m))));
            }
        }
        let (a1, b1) = (a.drop_first(), b.drop_first());
        assert forall|i: int, x: ReadOutcome|
            0 <= i < a1.len() implies #[trigger] a1[i].read_outcome(url, x) == b1[i].read_outcome(
                url,
                x,
            ) by {
            assert(a1[i] == a[i + 1] && b1[i] == b[i + 1]);
            assert(a[i + 1].read_outcome(url, x) == b[i + 1].read_outcome(url, x));
        }
        lemma_same_outcomes_dispatch_alike(a1, b1, url, r);
        assert(a[0].read_outcome(url, r) == b[0].read_outcome(url, r));
    }
}

/// Handlers in front of two lists that dispatch alike keep them alike.
proof fn lemma_common_prefix_dispatch_alike(
    pre: Seq<Box<dyn ResourceUrlHandler>>,
    x: Seq<Box<dyn ResourceUrlHandler>>,
    y: Seq<Box<dyn ResourceUrlHandler>>,
    url: ResourceUrl,
    r: ReadOutcome,
)
    requires
        forall|s: ReadOutcome| dispatch_outcome(x, url, s) == dispatch_outcome(y, url, s),
    ensures
        dispatch_outcome(pre + x, url, r) == dispatch_outcome(pre + y, url, r),
    decreases pre.len(),
{
    if pre.len() == 0 {
        assert(pre + x =~= x);
        assert(pre + y =~= y);
    } else {
        let rest = pre.drop_first();
        assert((pre + x)[0] == pre[0]);
        assert((pre + y)[0] == pre[0]);
        assert((pre + x).drop_first() =~= rest + x);
        assert((pre + y).drop_first() =~= rest + y);
        lemma_common_prefix_dispatch_alike(rest, x, y, url, r);
    }
}

/// Trying `inner` and then `post` may give what `inner` gives, where that is
/// not `Unsupported`, or, where `inner` may end in `Unsupported`, what `post`
/// gives.
proof fn lemma_dispatch_concat(
    inner: Seq<Box<dyn ResourceUrlHandler>>,
    post: Seq<Box<dyn ResourceUrlHandler>>,
    url: ResourceUrl,
    r: ReadOutcome,
)
    ensures
        dispatch_outcome(inner + post, url, r) == ((!is_unsupported(r) && dispatch_outcome(
            inner,
            url,
            r,
        )) || (dispatch_may_decline(inner, url) && dispatch_outcome(post, url, r))),
    decreases inner.len(),
{
    if inner.len() == 0 {
        assert(inner + post =~= post);
        assert(dispatch_outcome(inner, url, exhausted_outcome(url)));
    } else {
        let rest = inner.drop_first();
        assert((inner + post)[0] == inner[0]);
        assert((inner + post).drop_first() =~= rest + post);
        lemma_dispatch_concat(rest, post, url, r);
        assert(may_decline(inner + post, 0, url) == may_decline(inner, 0, url));
        assert(dispatch_may_decline(inner, url) == (may_decline(inner, 0, url)
            && dispatch_may_decline(rest, url))) by {
            if dispatch_may_decline(rest, url) && may_decline(inner, 0, url) {
                let m = choose|m: Seq<char>|
                    #[trigger] dispatch_outcome(rest, url, Err((ErrorKind::Unsupported, m)));
                assert(dispatch_outcome(inner, url, Err((ErrorKind::Unsupported, m))));
            }
            if dispatch_may_decline(inner, url) {
                let m = choose|m: Seq<char>|
                    #[trigger] dispatch_outcome(inner, url, Err((ErrorKind::Unsupported, m)));
                assert(dispatch_outcome(rest, url, Err((ErrorKind::Unsupported, m))));
            }
        }
    }
}

/// Where the first handler never declines `url`, the list gives what it gives.
proof fn lemma_first_claiming_handler_decides(
    handlers: Seq<Box<dyn ResourceUrlHandler>>,
    url: ResourceUrl,
)
    requires
        handlers.len() > 0,
        forall|r: ReadOutcome| #[trigger] handlers[0].read_outcome(url, r) ==> !is_unsupported(r),
    ensures
        forall|r: ReadOutcome|
            dispatch_outcome(handlers, url, r) == handlers[0].read_outcome(url, r),
{
    if may_decline(handlers, 0, url) {
        let m = choose|m: Seq<char>|
            #[trigger] handlers[0].read_outcome(url, Err((ErrorKind::Unsupported, m)));
        assert(!is_unsupported(Err((ErrorKind::Unsupported, m))));
    }
}

/// A dispatcher without handlers fails with `Unsupported` on every URL.
pub proof fn lemma_empty_dispatch_declines(
    d: &DispatchingResourceHandler,
    url: ResourceUrl,
    r: ReadOutcome,
)
    requires
        d.handlers_view().len() == 0,
        d.read_outcome(url, r),
    ensures
        is_unsupported(r),
        r == exhausted_outcome(url),
{
}

/// Where the first handler fails on `url` with an error other than
/// `Unsupported`, the dispatcher fails with exactly that error: what the later
/// handlers would give does not count.
pub proof fn lemma_first_failure_decides(d: &DispatchingResourceHandler, url: ResourceUrl)
    requires
        d.handlers_view().len() > 0,
        forall|r: ReadOutcome| #[trigger]
            d.handlers_view()[0].read_outcome(url, r) ==> r is Err && !is_unsupported(r),
    ensures
        forall|r: ReadOutcome|
            d.read_outcome(url, r) == d.handlers_view()[0].read_outcome(url, r),
{
    lemma_first_claiming_handler_decides(d.handlers_view(), url);
}

/// Where the first handler declines `url` and the second reads it, the
/// dispatcher gives exactly what the second gives: what the later handlers
/// would give does not count.
pub proof fn lemma_decline_then_success(d: &DispatchingResourceHandler, url: ResourceUrl)
    requires
        d.handlers_view().len() >= 2,
        may_decline(d.handlers_view(), 0, url),
        forall|r: ReadOutcome| #[trigger]
            d.handlers_view()[0].read_outcome(url, r) ==> is_unsupported(r),
        forall|r: ReadOutcome| #[trigger] d.handlers_view()[1].read_outcome(url, r) ==> r is Ok,
    ensures
        forall|r: ReadOutcome|
            d.read_outcome(url, r) == d.handlers_view()[1].read_outcome(url, r),
{
    let hs = d.handlers_view();
    let rest = hs.drop_first();
    assert(rest.len() == hs.len() - 1);
    assert(rest[0] == hs[1]);
    assert forall|r: ReadOutcome| #[trigger] rest[0].read_outcome(url, r) implies !is_unsupported(
        r,
    ) by {
        assert(hs[1].read_outcome(url, r));
    }
    lemma_first_claiming_handler_decides(rest, url);
    assert forall|r: ReadOutcome| d.read_outcome(url, r) == hs[1].read_outcome(url, r) by {
        if hs[0].read_outcome(url, r) {
            assert(is_unsupported(r));
        }
        assert(dispatch_outcome(hs, url, r) == dispatch_outcome(rest, url, r));
        assert(dispatch_outcome(rest, url, r) == rest[0].read_outcome(url, r));
    }
}

/// A dispatcher that stands among the handlers of another reads as its own
/// handlers would in its place: nesting dispatchers gives the same results as
/// flattening their lists.
///
/// Handler `k` of `outer` reads as `inner`, and `flat` holds, in order, the
/// handlers of `outer` before `k`, those of `inner`, and those of `outer`
/// after `k`.
pub proof fn lemma_nested_dispatch_is_flat(
    outer: &DispatchingResourceHandler,
    k: int,
    inner: &DispatchingResourceHandler,
    flat: &DispatchingResourceHandler,
    url: ResourceUrl,
)
    requires
        0 <= k < outer.handlers_view().len(),
        forall|r: ReadOutcome| #[trigger]
            outer.handlers_view()[k].read_outcome(url, r) == inner.read_outcome(url, r),
        same_outcomes(
            flat.handlers_view(),
            outer.handlers_view().take(k) + inner.handlers_view() + outer.handlers_view().skip(
                k + 1,
            ),
            url,
        ),
    ensures
        forall|r: ReadOutcome| outer.read_outcome(url, r) == flat.read_outcome(url, r),
{
    let hs = outer.handlers_view();
    let ins = inner.handlers_view();
    let pre = hs.take(k);
    let tail = hs.skip(k);
    let post = hs.skip(k + 1);
    assert(hs =~= pre + tail);
    assert(tail[0] == hs[k]);
    assert(tail.drop_first() =~= post);
    assert(pre + ins + post =~= pre + (ins + post));
    assert(may_decline(tail, 0, url) == dispatch_may_decline(ins, url)) by {
        if may_decline(tail, 0, url) {
            let m = choose|m: Seq<char>|
                #[trigger] tail[0].read_outcome(url, Err((ErrorKind::Unsupported, m)));
            assert(hs[k].read_outcome(url, Err((ErrorKind::Unsupported, m))));
            assert(dispatch_outcome(ins, url, Err((ErrorKind::Unsupported, m))));
        }
        if dispatch_may_decline(ins, url) {
            let m = choose|m: Seq<char>|
                #[trigger] dispatch_outcome(ins, url, Err((ErrorKind::Unsupported, m)));
            assert(hs[k].read_outcome(url, Err((ErrorKind::Unsupported, m))));
        }
    }
    assert forall|s: ReadOutcome|
        dispatch_outcome(tail, url, s) == dispatch_outcome(ins + post, url, s) by {
        lemma_dispatch_concat(ins, post, url, s);
        assert(hs[k].read_outcome(url, s) == inner.read_outcome(url, s));
    }
    assert forall|r: ReadOutcome| outer.read_outcome(url, r) == flat.read_outcome(url, r) by {
        lemma_common_prefix_dispatch_alike(pre, tail, ins + post, url, r);
        lemma_same_outcomes_dispatch_alike(flat.handlers_view(), pre + ins + post, url, r);
    }
}

} // verus!
