//! The operations on organizational units, each as the request that performs it.

use vstd::prelude::*;
use vstd::string::*;

use crate::address::{
    collection_address, collection_url, join_args, list_query_args, list_url, texts, unit_address,
    unit_url,
};
use crate::encoding::encode_path;
use crate::request::{Method, Request, RequestView};
use crate::response::{is_success_status, settled, FailureView, ReplyView};
use crate::types::DirectoryOrgunitsListType;

verus! {

/// The request that lists the organizational units of a customer.
pub open spec fn list_request(
    customer_id: Seq<char>,
    org_unit_path: Seq<char>,
    type_: DirectoryOrgunitsListType,
) -> RequestView {
    RequestView {
        method: Method::Get,
        url: list_url(customer_id, org_unit_path, type_),
        body: None,
    }
}

/// The request that adds an organizational unit, given in its wire form, to
/// those of a customer.
pub open spec fn insert_request(customer_id: Seq<char>, body: Seq<u8>) -> RequestView {
    RequestView { method: Method::Post, url: collection_url(customer_id), body: Some(body) }
}

/// The request that retrieves an organizational unit.
pub open spec fn get_request(customer_id: Seq<char>, org_unit_path: Seq<char>) -> RequestView {
    RequestView { method: Method::Get, url: unit_url(customer_id, org_unit_path), body: None }
}

/// The request that replaces an organizational unit by the one given in its
/// wire form.
pub open spec fn update_request(
    customer_id: Seq<char>,
    org_unit_path: Seq<char>,
    body: Seq<u8>,
) -> RequestView {
    RequestView {
        method: Method::Put,
        url: unit_url(customer_id, org_unit_path),
        body: Some(body),
    }
}

/// The request that removes an organizational unit.
pub open spec fn delete_request(customer_id: Seq<char>, org_unit_path: Seq<char>) -> RequestView {
    RequestView { method: Method::Delete, url: unit_url(customer_id, org_unit_path), body: None }
}

/// The request that changes the fields of an organizational unit that are
/// given in the wire form of one.
pub open spec fn patch_request(
    customer_id: Seq<char>,
    org_unit_path: Seq<char>,
    body: Seq<u8>,
) -> RequestView {
    RequestView {
        method: Method::Patch,
        url: unit_url(customer_id, org_unit_path),
        body: Some(body),
    }
}

/// The organizational units of a directory service, reached through a
/// transport of type `C`.
///
/// Each operation yields the one request that performs it. What the reply to
/// that request means is settled by [`crate::response::Reply::payload`] for
/// the operations that expect a value, and by
/// [`crate::response::Reply::acknowledgement`] for a removal.
pub struct Orgunits<C> {
    client: C,
}

impl<C> Orgunits<C> {
    /// The transport that the requests are meant for.
    pub closed spec fn transport(&self) -> C {
        self.client
    }

    /// The organizational units that are reached through `client`.
    pub fn new(client: C) -> (r: Self)
        ensures
            r.transport() == client,
    {
        Orgunits { client }
    }

    /// The transport that the requests are meant for.
    pub fn client(&self) -> (c: &C)
        ensures
            *c == self.transport(),
    {
        &self.client
    }

    /// The request that retrieves the organizational units of an account: a
    /// `GET` of `/admin/directory/v1/customer/{customerId}/orgunits`.
    ///
    /// * `customer_id` names the account; `my_customer` stands for the
    ///   caller's own.
    /// * `org_unit_path` is the full path or the unique ID of the
    ///   organizational unit whose children are wanted; empty for none.
    /// * `type_` says whether all organizational units below are wanted or
    ///   only the immediate children.
    pub fn directory_list(
        &self,
        customer_id: &str,
        org_unit_path: &str,
        type_: DirectoryOrgunitsListType,
    ) -> (r: Request)
        ensures
            r@ == list_request(customer_id@, org_unit_path@, type_),
    {
        let mut query_args: Vec<String> = Vec::new();
        let mut scope = String::from_str("type=");
        scope.append(type_.as_str());
        query_args.push(scope);
        if !org_unit_path.is_empty() {
            let mut filter = String::from_str("orgUnitPath=");
            filter.append(encode_path(org_unit_path).as_str());
            query_args.push(filter);
        }
        let query_ = join_args(&query_args);
        proof {
            assert(texts(query_args@) == list_query_args(org_unit_path@, type_));
        }
        let mut url = collection_address(customer_id);
        url.append("?");
        url.append(query_.as_str());
        Request { method: Method::Get, url, body: None }
    }

    /// The request that adds an organizational unit to an account: a `POST`
    /// to `/admin/directory/v1/customer/{customerId}/orgunits`.
    ///
    /// * `customer_id` names the account; `my_customer` stands for the
    ///   caller's own.
    /// * `body` is the organizational unit to add, in its wire form.
    pub fn directory_insert(&self, customer_id: &str, body: Vec<u8>) -> (r: Request)
        ensures
            r@ == insert_request(customer_id@, body@),
    {
        let url = collection_address(customer_id);
        Request { method: Method::Post, url, body: Some(body) }
    }

    /// The request that retrieves an organizational unit: a `GET` of
    /// `/admin/directory/v1/customer/{customerId}/orgunits/{orgUnitPath}`.
    ///
    /// * `customer_id` names the account; `my_customer` stands for the
    ///   caller's own.
    /// * `org_unit_path` is the full path of the organizational unit or its
    ///   unique ID.
    pub fn directory_get(&self, customer_id: &str, org_unit_path: &str) -> (r: Request)
        ensures
            r@ == get_request(customer_id@, org_unit_path@),
    {
        let url = unit_address(customer_id, org_unit_path);
        Request { method: Method::Get, url, body: None }
    }

    /// The request that replaces an organizational unit: a `PUT` to
    /// `/admin/directory/v1/customer/{customerId}/orgunits/{orgUnitPath}`.
    ///
    /// * `customer_id` names the account; `my_customer` stands for the
    ///   caller's own.
    /// * `org_unit_path` is the full path of the organizational unit or its
    ///   unique ID.
    /// * `body` is the organizational unit as it shall be, in its wire form.
    pub fn directory_update(
        &self,
        customer_id: &str,
        org_unit_path: &str,
        body: Vec<u8>,
    ) -> (r: Request)
        ensures
            r@ == update_request(customer_id@, org_unit_path@, body@),
    {
        let url = unit_address(customer_id, org_unit_path);
        Request { method: Method::Put, url, body: Some(body) }
    }

    /// The request that removes an organizational unit: a `DELETE` of
    /// `/admin/directory/v1/customer/{customerId}/orgunits/{orgUnitPath}`.
    ///
    /// * `customer_id` names the account; `my_customer` stands for the
    ///   caller's own.
    /// * `org_unit_path` is the full path of the organizational unit or its
    ///   unique ID.
    pub fn directory_delete(&self, customer_id: &str, org_unit_path: &str) -> (r: Request)
        ensures
            r@ == delete_request(customer_id@, org_unit_path@),
    {
        let url = unit_address(customer_id, org_unit_path);
        Request { method: Method::Delete, url, body: None }
    }

    /// The request that changes part of an organizational unit: a `PATCH` to
    /// `/admin/directory/v1/customer/{customerId}/orgunits/{orgUnitPath}`.
    /// How the service merges the part into what it holds is the service's
    /// matter.
    ///
    /// * `customer_id` names the account; `my_customer` stands for the
    ///   caller's own.
    /// * `org_unit_path` is the full path of the organizational unit or its
    ///   unique ID.
    /// * `body` holds the fields to change, in the wire form of an
    ///   organizational unit.
    pub fn directory_patch(
        &self,
        customer_id: &str,
        org_unit_path: &str,
        body: Vec<u8>,
    ) -> (r: Request)
        ensures
            r@ == patch_request(customer_id@, org_unit_path@, body@),
    {
        let url = unit_address(customer_id, org_unit_path);
        Request { method: Method::Patch, url, body: Some(body) }
    }
}

/// Whether a service keeps what a replacement puts. The service is seen from
/// outside, as a function from what it holds and a request to what it holds
/// thereafter and what it answers. It keeps what a replacement puts if,
/// whenever it answers a replacement with success, it answers a retrieval of
/// the same address that comes next with success and with the body that was
/// put.
pub open spec fn keeps_replacements<S>(serve: spec_fn(S, RequestView) -> (S, ReplyView)) -> bool {
    forall|held: S, url: Seq<char>, body: Seq<u8>|
        settled(
            (#[trigger] serve(held, RequestView { method: Method::Put, url, body: Some(body) })).1,
        ) is Ok ==> settled(
            serve(
                serve(held, RequestView { method: Method::Put, url, body: Some(body) }).0,
                RequestView { method: Method::Get, url, body: None },
            ).1,
        ) == Ok::<Seq<u8>, FailureView>(body)
}

/// Against a service that keeps what a replacement puts, and with nothing
/// else reaching the service in between: a retrieval, a replacement of the
/// same organizational unit by what was retrieved, and a second retrieval
/// yield in the end what the first retrieval yielded, provided that the first
/// retrieval and the replacement succeed.
pub proof fn lemma_get_replace_get<S>(
    serve: spec_fn(S, RequestView) -> (S, ReplyView),
    held: S,
    customer_id: Seq<char>,
    org_unit_path: Seq<char>,
)
    requires
        keeps_replacements(serve),
        settled(serve(held, get_request(customer_id, org_unit_path)).1) is Ok,
        settled(
            serve(
                serve(held, get_request(customer_id, org_unit_path)).0,
                update_request(
                    customer_id,
                    org_unit_path,
                    settled(serve(held, get_request(customer_id, org_unit_path)).1)->Ok_0,
                ),
            ).1,
        ) is Ok,
    ensures
        ({
            let first = serve(held, get_request(customer_id, org_unit_path));
            let value = settled(first.1)->Ok_0;
            let replaced = serve(first.0, update_request(customer_id, org_unit_path, value));
            let second = serve(replaced.0, get_request(customer_id, org_unit_path));
            settled(second.1) == settled(first.1)
        }),
{
    let first = serve(held, get_request(customer_id, org_unit_path));
    let value = settled(first.1)->Ok_0;
    let url = unit_url(customer_id, org_unit_path);
    assert(update_request(customer_id, org_unit_path, value) == (RequestView {
        method: Method::Put,
        url,
        body: Some(value),
    }));
    assert(get_request(customer_id, org_unit_path) == (RequestView {
        method: Method::Get,
        url,
        body: None,
    }));
}

/// Whatever value is to be added, the request that adds it carries the value
/// as it was given: nothing about it is judged before it is sent. If the
/// service does not accept it, the operation fails with the status and the
/// body of the service's answer.
pub proof fn lemma_insert_is_judged_by_the_service(
    customer_id: Seq<char>,
    body: Seq<u8>,
    status: u16,
    answer: Seq<u8>,
)
    requires
        !is_success_status(status),
    ensures
        insert_request(customer_id, body).body == Some(body),
        settled(ReplyView::Answered { status, body: answer }) == Err::<Seq<u8>, FailureView>(
            FailureView::Status { code: status, body: answer },
        ),
{
}

} // verus!
