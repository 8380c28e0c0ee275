//! Reconciling chunked multiget answers with the hrefs they requested.

use vstd::prelude::*;

use crate::error::{Error, ErrorView, Operation};
use crate::multistatus::{item_views, multistatus_spec, parse_multistatus_bytes};
use crate::types::{BatchItem, DavItem, DavItemView};
use crate::xml::strings_view;

verus! {

/// Whether some response of `returned` carries the href `h`.
pub open spec fn echoed(returned: Seq<DavItemView>, h: Seq<char>) -> bool {
    exists|i: int| 0 <= i < returned.len() && (#[trigger] returned[i]).href == h
}

/// The requested hrefs that no response echoes, in request order.
pub open spec fn missing_spec(requested: Seq<Seq<char>>, returned: Seq<DavItemView>) -> Seq<Seq<char>>
    decreases requested.len(),
{
    if requested.len() == 0 {
        Seq::empty()
    } else {
        missing_spec(requested.drop_last(), returned) + if echoed(returned, requested.last()) {
            Seq::empty()
        } else {
            seq![requested.last()]
        }
    }
}

fn str_eq(a: &String, b: &String) -> (r: bool)
    ensures
        r == (a@ == b@),
{
    *a == *b
}

/// The requested hrefs the answer did not echo with a response (exact
/// string comparison), in request order.
pub fn missing_hrefs(requested: &[String], returned: &[DavItem]) -> (r: Vec<String>)
    ensures
        strings_view(r@) == missing_spec(strings_view(requested@), item_views(returned@)),
{
    let ghost req = strings_view(requested@);
    let ghost ret = item_views(returned@);
    let mut out: Vec<String> = Vec::new();
    let mut i: usize = 0;
    while i < requested.len()
        invariant
            i <= requested@.len(),
            req == strings_view(requested@),
            ret == item_views(returned@),
            strings_view(out@) == missing_spec(req.take(i as int), ret),
        decreases requested.len() - i,
    {
        let mut j: usize = 0;
        let mut found = false;
        while j < returned.len()
            invariant
                j <= returned@.len(),
                ret == item_views(returned@),
                i < requested@.len(),
                found == exists|k: int| 0 <= k < j && (#[trigger] ret[k]).href == requested@[i as int]@,
            decreases returned.len() - j,
        {
            assert(ret[j as int] == returned@[j as int]@);
            if str_eq(&returned[j].href, &requested[i]) {
                found = true;
            }
            j += 1;
        }
        proof {
            assert(req.take(i as int + 1).drop_last() =~= req.take(i as int));
            assert(req.take(i as int + 1).last() == requested@[i as int]@);
        }
        if !found {
            out.push(requested[i].clone());
            assert(strings_view(out@) =~= missing_spec(req.take(i as int), ret) + seq![requested@[i as int]@]);
        } else {
            assert(strings_view(out@) =~= missing_spec(req.take(i as int), ret) + Seq::<Seq<char>>::empty());
        }
        i += 1;
    }
    assert(req.take(requested@.len() as int) =~= req);
    out
}

fn copy_strings(v: &Vec<String>) -> (r: Vec<String>)
    ensures
        strings_view(r@) == strings_view(v@),
{
    let mut out: Vec<String> = Vec::new();
    let mut i: usize = 0;
    while i < v.len()
        invariant
            i <= v@.len(),
            strings_view(out@) == strings_view(v@).take(i as int),
        decreases v.len() - i,
    {
        let c = v[i].clone();
        assert(c@ == v@[i as int]@);
        let ghost o = out@;
        out.push(c);
        assert(strings_view(out@) =~= strings_view(o).push(v@[i as int]@));
        assert(strings_view(out@) =~= strings_view(v@).take(i as int + 1));
        i += 1;
    }
    assert(strings_view(v@).take(v@.len() as int) =~= strings_view(v@));
    out
}

/// A chunk that failed as a whole (transport error, failed status, body
/// that does not parse): one item naming every href to fetch again.
pub fn chunk_failure<T>(pub_path: String, requested: Vec<String>, err: Error) -> (b: BatchItem<T>)
    ensures
        b.pub_path@ == pub_path@,
        strings_view(b.hrefs@) == strings_view(requested@),
        b.missing_hrefs@.len() == 0,
        b.result matches Err(e) && e@ == err@,
{
    BatchItem { pub_path, hrefs: requested, missing_hrefs: Vec::new(), result: Err(err) }
}

/// A parsed chunk: one item per object, in order, each carrying the chunk's
/// path, its requested hrefs, and the requested hrefs no response echoed.
pub fn chunk_items<T>(pub_path: String, requested: Vec<String>, missing: Vec<String>, objects: Vec<T>) -> (r: Vec<
    BatchItem<T>,
>)
    ensures
        r@.len() == objects@.len(),
        forall|i: int|
            0 <= i < r@.len() ==> {
                let b = #[trigger] r@[i];
                &&& b.pub_path@ == pub_path@
                &&& strings_view(b.hrefs@) == strings_view(requested@)
                &&& strings_view(b.missing_hrefs@) == strings_view(missing@)
                &&& b.result == Ok::<T, Error>(objects@[i])
            },
{
    let ghost objs = objects@;
    let mut out: Vec<BatchItem<T>> = Vec::new();
    let n = objects.len();
    let mut k: usize = 0;
    for object in it: objects
        invariant
            n == it.seq().len(),
            objs == it.seq(),
            k == it.index(),
            k <= n,
            out@.len() == k,
            forall|i: int|
                0 <= i < k ==> {
                    let b = #[trigger] out@[i];
                    &&& b.pub_path@ == pub_path@
                    &&& strings_view(b.hrefs@) == strings_view(requested@)
                    &&& strings_view(b.missing_hrefs@) == strings_view(missing@)
                    &&& b.result == Ok::<T, Error>(objs[i])
                },
    {
        let path = pub_path.clone();
        out.push(
            BatchItem {
                pub_path: path,
                hrefs: copy_strings(&requested),
                missing_hrefs: copy_strings(&missing),
                result: Ok(object),
            },
        );
        k += 1;
    }
    out
}

/// The items one multiget chunk contributes to a batch, given the hrefs it
/// requested and how it was answered: the transport's failure, or the
/// status and body of the answer. A failure, a status outside 2xx, or a
/// body that does not parse gives one item with that error, naming every
/// requested href; a parsed body gives one item per response, in server
/// order, each with the requested hrefs that no response echoed.
pub fn reconcile_chunk(
    operation: Operation,
    pub_path: String,
    requested: Vec<String>,
    answer: Result<(u16, Vec<u8>), Error>,
) -> (r: Vec<BatchItem<DavItem>>)
    ensures
        match chunk_spec(operation, answer) {
            Err(e) => r@.len() == 1 && {
                let b = r@[0];
                &&& b.pub_path@ == pub_path@
                &&& strings_view(b.hrefs@) == strings_view(requested@)
                &&& b.missing_hrefs@.len() == 0
                &&& b.result matches Err(x) && x@ == e
            },
            Ok(items) => r@.len() == items.len() && forall|i: int|
                0 <= i < r@.len() ==> {
                    let b = #[trigger] r@[i];
                    &&& b.pub_path@ == pub_path@
                    &&& strings_view(b.hrefs@) == strings_view(requested@)
                    &&& strings_view(b.missing_hrefs@) == missing_spec(strings_view(requested@), items)
                    &&& b.result matches Ok(x) && x@ == items[i]
                },
        },
{
    match answer {
        Err(e) => vec![chunk_failure(pub_path, requested, e)],
        Ok((status, body)) => {
            if !(200 <= status && status <= 299) {
                return vec![chunk_failure(pub_path, requested, Error::UnexpectedStatus { operation, status })];
            }
            match parse_multistatus_bytes(body.as_slice()) {
                Err(e) => vec![chunk_failure(pub_path, requested, e)],
                Ok(parsed) => {
                    let items = parsed.items;
                    let missing = missing_hrefs(requested.as_slice(), items.as_slice());
                    let ghost iv = item_views(items@);
                    let ghost objs = items@;
                    let r = chunk_items(pub_path, requested, missing, items);
                    assert forall|i: int| 0 <= i < r@.len() implies (#[trigger] r@[i]).result matches Ok(x) && x@
                        == iv[i] by {
                        assert(r@[i].result == Ok::<DavItem, Error>(objs[i]));
                    }
                    r
                },
            }
        },
    }
}

/// How a multiget chunk's answer reads: the items of a parsed 2xx body, or
/// the error the chunk fails with.
pub open spec fn chunk_spec(operation: Operation, answer: Result<(u16, Vec<u8>), Error>) -> Result<
    Seq<DavItemView>,
    ErrorView,
> {
    match answer {
        Err(e) => Err(e@),
        Ok((status, body)) => if !(200 <= status && status <= 299) {
            Err(ErrorView::UnexpectedStatus { operation, status })
        } else {
            match multistatus_spec(body@) {
                Ok((items, _)) => Ok(items),
                Err(e) => Err(e),
            }
        },
    }
}

/// One request of a batch: its path, the hrefs it concerned, its result.
pub fn batch_item<T>(pub_path: String, hrefs: Vec<String>, result: Result<T, Error>) -> (b: BatchItem<T>)
    ensures
        b.pub_path@ == pub_path@,
        strings_view(b.hrefs@) == strings_view(hrefs@),
        b.missing_hrefs@.len() == 0,
        b.result == result,
{
    BatchItem { pub_path, hrefs, missing_hrefs: Vec::new(), result }
}

} // verus!
