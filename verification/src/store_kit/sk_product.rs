//! `SKProduct`, `SKProductsRequest` and `SKProductsResponse` of an offline
//! StoreKit: every requested identifier is answered with a valid product,
//! delivered to the request's delegate on the next run-loop turn.

use vstd::prelude::*;

use super::{responding, Id, NIL};

verus! {

// ---------------------------------------------------------------------------
// Product text
// ---------------------------------------------------------------------------

/// The last `.`-separated segment of an identifier: what follows its last
/// `.`, or the whole identifier when it has none
/// (`"com.game.gems100"` gives `"gems100"`).
pub open spec fn last_segment(s: Seq<char>) -> Seq<char>
    decreases s.len(),
{
    if s.len() == 0 {
        s
    } else if s.last() == '.' {
        Seq::empty()
    } else {
        last_segment(s.drop_last()).push(s.last())
    }
}

/// The text of a fabricated product.
pub struct ProductStrings {
    /// A copy of the requested identifier.
    pub product_identifier: String,
    /// The last segment of the identifier.
    pub localized_title: String,
    /// The whole identifier.
    pub localized_description: String,
}

/// `product` is the product fabricated for `identifier`.
pub open spec fn describes(product: ProductStrings, identifier: Seq<char>) -> bool {
    &&& product.product_identifier@ == identifier
    &&& product.localized_title@ == last_segment(identifier)
    &&& product.localized_description@ == identifier
}

/// The suffix from `start` on has no `.`, and `start` is the beginning or
/// follows a `.`: the suffix is the last segment.
proof fn lemma_last_segment_from(s: Seq<char>, start: int)
    requires
        0 <= start <= s.len(),
        start == 0 || s[start - 1] == '.',
        forall|j: int| start <= j < s.len() ==> s[j] != '.',
    ensures
        last_segment(s) == s.subrange(start, s.len() as int),
    decreases s.len(),
{
    if s.len() == 0 {
    } else if s.len() == start {
        assert(s.last() == '.');
    } else {
        let d = s.drop_last();
        assert forall|j: int| start <= j < d.len() implies d[j] != '.' by {
            assert(d[j] == s[j]);
        }
        lemma_last_segment_from(d, start);
        assert(d.subrange(start, d.len() as int).push(s.last()) =~= s.subrange(
            start,
            s.len() as int,
        ));
    }
}

/// The title of the product for an identifier: the text after the
/// identifier's last `.`, or the whole identifier when it has no `.`.
pub fn product_title(identifier: &str) -> (title: String)
    ensures
        title@ == last_segment(identifier@),
{
    let n = identifier.unicode_len();
    let mut start: usize = 0;
    let mut pos: usize = 0;
    for c in it: identifier.chars()
        invariant
            n == identifier@.len(),
            it.seq() == identifier@,
            pos == it.index(),
            start <= pos <= n,
            start == 0 || identifier@[start - 1] == '.',
            forall|j: int| start <= j < pos ==> identifier@[j] != '.',
    {
        pos = pos + 1;
        if c == '.' {
            start = pos;
        }
    }
    proof {
        lemma_last_segment_from(identifier@, start as int);
    }
    String::from_str(identifier.substring_char(start, n))
}

/// Builds the text of the product that `+[SKProductsRequest start]`
/// fabricates for one identifier: the identifier itself, its last segment as
/// title and the whole identifier as description. (The price is always
/// 0.99 and the locale the current one; both are objects of the runtime.)
pub fn make_product(identifier: &str) -> (product: ProductStrings)
    ensures
        describes(product, identifier@),
        product.product_identifier@ == identifier@,
        product.localized_title@ == last_segment(identifier@),
        product.localized_description@ == identifier@,
{
    ProductStrings {
        product_identifier: String::from_str(identifier),
        localized_title: product_title(identifier),
        localized_description: String::from_str(identifier),
    }
}

/// What a products request answers.
pub struct ProductsAnswer {
    /// One product per requested identifier, in the order requested.
    pub products: Vec<ProductStrings>,
    /// The identifiers that have no product: always none.
    pub invalid_product_identifiers: Vec<String>,
}

/// `-[SKProductsRequest start]`: a valid product for every requested
/// identifier, and no invalid identifier.
pub fn answer_products_request(identifiers: &Vec<String>) -> (answer: ProductsAnswer)
    ensures
        answer.products.len() == identifiers.len(),
        forall|i: int|
            0 <= i < identifiers.len() ==> describes(
                #[trigger] answer.products@[i],
                identifiers@[i]@,
            ),
        answer.invalid_product_identifiers.len() == 0,
{
    let n = identifiers.len();
    let mut products: Vec<ProductStrings> = Vec::new();
    for i in 0..n
        invariant
            n == identifiers.len(),
            products.len() == i,
            forall|j: int|
                0 <= j < i ==> describes(#[trigger] products@[j], identifiers@[j]@),
    {
        let product = make_product(identifiers[i].as_str());
        products.push(product);
    }
    ProductsAnswer { products, invalid_product_identifiers: Vec::new() }
}

// ---------------------------------------------------------------------------
// SKProduct
// ---------------------------------------------------------------------------

/// The state of an `SKProduct`.
pub struct SKProductHostObject {
    /// `NSString*`, owned.
    pub product_identifier: Id,
    /// `NSString*`, owned.
    pub localized_title: Id,
    /// `NSString*`, owned.
    pub localized_description: Id,
    /// `NSNumber*` standing in for `NSDecimalNumber*`, owned.
    pub price: Id,
    /// `NSLocale*`, owned.
    pub price_locale: Id,
}

impl Default for SKProductHostObject {
    /// A freshly allocated product: every field nil.
    fn default() -> (product: SKProductHostObject)
        ensures
            product.product_identifier == NIL,
            product.localized_title == NIL,
            product.localized_description == NIL,
            product.price == NIL,
            product.price_locale == NIL,
    {
        SKProductHostObject {
            product_identifier: NIL,
            localized_title: NIL,
            localized_description: NIL,
            price: NIL,
            price_locale: NIL,
        }
    }
}

impl SKProductHostObject {
    /// `-[SKProduct productIdentifier]`.
    pub fn product_identifier(&self) -> (identifier: Id)
        ensures
            identifier == self.product_identifier,
    {
        self.product_identifier
    }

    /// `-[SKProduct localizedTitle]`.
    pub fn localized_title(&self) -> (title: Id)
        ensures
            title == self.localized_title,
    {
        self.localized_title
    }

    /// `-[SKProduct localizedDescription]`.
    pub fn localized_description(&self) -> (description: Id)
        ensures
            description == self.localized_description,
    {
        self.localized_description
    }

    /// `-[SKProduct price]`.
    pub fn price(&self) -> (price: Id)
        ensures
            price == self.price,
    {
        self.price
    }

    /// `-[SKProduct priceLocale]`.
    pub fn price_locale(&self) -> (locale: Id)
        ensures
            locale == self.price_locale,
    {
        self.price_locale
    }

    /// The objects that the product owns, in the order `-dealloc` releases
    /// them.
    pub open spec fn owned(self) -> Seq<Id> {
        seq![
            self.product_identifier,
            self.localized_title,
            self.localized_description,
            self.price,
            self.price_locale,
        ]
    }

    /// The objects retained when the product is built: the title, the
    /// description, the price and the locale (the identifier is an owned
    /// copy already).
    pub open spec fn retained(self) -> Seq<Id> {
        seq![self.localized_title, self.localized_description, self.price, self.price_locale]
    }

    /// The objects to retain when the product is built.
    pub fn retained_on_creation(&self) -> (retained: Vec<Id>)
        ensures
            retained@ == self.retained(),
    {
        vec![self.localized_title, self.localized_description, self.price, self.price_locale]
    }

    /// The objects that `-dealloc` releases, in the order it releases them.
    pub fn owned_objects(&self) -> (owned: Vec<Id>)
        ensures
            owned@ == self.owned(),
    {
        vec![
            self.product_identifier,
            self.localized_title,
            self.localized_description,
            self.price,
            self.price_locale,
        ]
    }
}

// ---------------------------------------------------------------------------
// SKProductsResponse
// ---------------------------------------------------------------------------

/// The state of an `SKProductsResponse`.
pub struct SKProductsResponseHostObject {
    /// `NSArray<SKProduct*>*`, owned.
    pub products: Id,
    /// `NSArray<NSString*>*` (always empty here), owned.
    pub invalid_product_identifiers: Id,
}

impl SKProductsResponseHostObject {
    /// A response holding the two (retained) arrays.
    pub fn new(products: Id, invalid_product_identifiers: Id) -> (response:
        SKProductsResponseHostObject)
        ensures
            response.products == products,
            response.invalid_product_identifiers == invalid_product_identifiers,
    {
        SKProductsResponseHostObject { products, invalid_product_identifiers }
    }

    /// `-[SKProductsResponse products]`.
    pub fn products(&self) -> (products: Id)
        ensures
            products == self.products,
    {
        self.products
    }

    /// `-[SKProductsResponse invalidProductIdentifiers]`.
    pub fn invalid_product_identifiers(&self) -> (invalid: Id)
        ensures
            invalid == self.invalid_product_identifiers,
    {
        self.invalid_product_identifiers
    }

    /// The objects that the response owns, in the order `-dealloc` releases
    /// them.
    pub open spec fn owned(self) -> Seq<Id> {
        seq![self.products, self.invalid_product_identifiers]
    }

    /// The objects retained when the response is built: both arrays.
    pub open spec fn retained(self) -> Seq<Id> {
        seq![self.products, self.invalid_product_identifiers]
    }

    /// The objects to retain when the response is built.
    pub fn retained_on_creation(&self) -> (retained: Vec<Id>)
        ensures
            retained@ == self.retained(),
    {
        vec![self.products, self.invalid_product_identifiers]
    }

    /// The objects that `-dealloc` releases, in the order it releases them.
    pub fn owned_objects(&self) -> (owned: Vec<Id>)
        ensures
            owned@ == self.owned(),
    {
        vec![self.products, self.invalid_product_identifiers]
    }
}

// ---------------------------------------------------------------------------
// SKProductsRequest
// ---------------------------------------------------------------------------

/// A message that delivering a products response sends to the delegate.
#[derive(PartialEq, Eq, Structural, Clone, Copy, Debug)]
pub enum RequestCallback {
    /// `productsRequest:didReceiveResponse:` with the response.
    ReceivedResponse(Id),
    /// `requestDidFinish:`.
    Finished,
}

impl RequestCallback {
    /// The selector of the message.
    pub fn selector(&self) -> (selector: &'static str)
        ensures
            self is ReceivedResponse ==> selector@ == "productsRequest:didReceiveResponse:"@,
            self is Finished ==> selector@ == "requestDidFinish:"@,
    {
        match self {
            RequestCallback::ReceivedResponse(_) => "productsRequest:didReceiveResponse:",
            RequestCallback::Finished => "requestDidFinish:",
        }
    }
}

/// The messages that delivering a products response sends: none without a
/// delegate; otherwise the response, then the end of the request, each only
/// when the delegate responds to it.
pub open spec fn delegate_messages(
    delegate: Id,
    response: Id,
    responds_to_response: bool,
    responds_to_finish: bool,
) -> Seq<RequestCallback> {
    if delegate == NIL {
        Seq::empty()
    } else {
        (if responds_to_response {
            seq![RequestCallback::ReceivedResponse(response)]
        } else {
            Seq::empty()
        }) + (if responds_to_finish {
            seq![RequestCallback::Finished]
        } else {
            Seq::empty()
        })
    }
}

/// The messages that a delivery offers the delegate, in order: none without
/// a delegate, otherwise the response and then the end of the request.
pub open spec fn delegate_candidates(delegate: Id, response: Id) -> Seq<RequestCallback> {
    if delegate == NIL {
        Seq::empty()
    } else {
        seq![RequestCallback::ReceivedResponse(response), RequestCallback::Finished]
    }
}

/// The abstract state of a delegate delivery in progress.
pub struct DelegateDeliveryView {
    pub delegate: Id,
    pub messages: Seq<RequestCallback>,
    /// How many messages have been offered.
    pub position: nat,
}

/// A products response being delivered: each message is offered in turn;
/// the delegate is asked whether it responds to it and, if it does, is sent
/// it before the next one is offered.
pub struct DelegateDelivery {
    delegate: Id,
    messages: Vec<RequestCallback>,
    position: usize,
}

impl View for DelegateDelivery {
    type V = DelegateDeliveryView;

    closed spec fn view(&self) -> DelegateDeliveryView {
        DelegateDeliveryView {
            delegate: self.delegate,
            messages: self.messages@,
            position: self.position as nat,
        }
    }
}

impl DelegateDelivery {
    /// Well-formedness: the position lies within the messages.
    pub open spec fn wf(&self) -> bool {
        self@.position <= self@.messages.len()
    }

    /// The delegate the messages go to.
    pub fn delegate(&self) -> (delegate: Id)
        ensures
            delegate == self@.delegate,
    {
        self.delegate
    }

    /// The message to offer next, or `None` once all were offered.
    pub fn next_message(&self) -> (message: Option<RequestCallback>)
        requires
            self.wf(),
        ensures
            message == (if self@.position < self@.messages.len() {
                Some(self@.messages[self@.position as int])
            } else {
                None
            }),
    {
        if self.position < self.messages.len() {
            Some(self.messages[self.position])
        } else {
            None
        }
    }

    /// Takes the delegate's answer for the message offered last: it is sent
    /// exactly when the delegate responds to it.
    pub fn answer(&mut self, responds: bool) -> (send: Option<RequestCallback>)
        requires
            old(self).wf(),
            old(self)@.position < old(self)@.messages.len(),
        ensures
            final(self).wf(),
            final(self)@.delegate == old(self)@.delegate,
            final(self)@.messages == old(self)@.messages,
            final(self)@.position == old(self)@.position + 1,
            send == (if responds {
                Some(old(self)@.messages[old(self)@.position as int])
            } else {
                None
            }),
    {
        let message = self.messages[self.position];
        let n = self.messages.len();
        proof {
            assert(self.position < n);
        }
        self.position = self.position + 1;
        if responds {
            Some(message)
        } else {
            None
        }
    }
}

/// The state of an `SKProductsRequest`.
pub struct SKProductsRequestHostObject {
    /// `NSArray<NSString*>*`, owned.
    pub identifiers: Id,
    /// Delegate, weak (StoreKit does not retain the request delegate).
    pub delegate: Id,
    /// `SKProductsResponse*`, owned; built at `start`, held until delivered.
    pub response: Id,
}

impl Default for SKProductsRequestHostObject {
    /// A freshly allocated request: every field nil.
    fn default() -> (request: SKProductsRequestHostObject)
        ensures
            request.identifiers == NIL,
            request.delegate == NIL,
            request.response == NIL,
    {
        SKProductsRequestHostObject { identifiers: NIL, delegate: NIL, response: NIL }
    }
}

impl SKProductsRequestHostObject {
    /// `-[SKProductsRequest initWithProductIdentifiers:]`, once the set is
    /// turned into an array: the request keeps the array, and hands back
    /// what to retain for it.
    pub fn init_with_product_identifiers(&mut self, identifiers: Id) -> (retain: Id)
        ensures
            final(self).identifiers == identifiers,
            final(self).delegate == old(self).delegate,
            final(self).response == old(self).response,
            retain == identifiers,
    {
        self.identifiers = identifiers;
        identifiers
    }

    /// The objects that the request owns, in the order `-dealloc` releases
    /// them: the identifiers and the response, not the (weak) delegate.
    pub open spec fn owned(self) -> Seq<Id> {
        seq![self.identifiers, self.response]
    }

    /// `-[SKProductsRequest delegate]`.
    pub fn delegate(&self) -> (delegate: Id)
        ensures
            delegate == self.delegate,
    {
        self.delegate
    }

    /// `-[SKProductsRequest setDelegate:]`.
    pub fn set_delegate(&mut self, delegate: Id)
        ensures
            final(self).delegate == delegate,
            final(self).identifiers == old(self).identifiers,
            final(self).response == old(self).response,
    {
        self.delegate = delegate;
    }

    /// The end of `-[SKProductsRequest start]`: the request holds the built
    /// response until it is delivered.
    pub fn set_response(&mut self, response: Id)
        ensures
            final(self).response == response,
            final(self).identifiers == old(self).identifiers,
            final(self).delegate == old(self).delegate,
    {
        self.response = response;
    }

    /// `-[SKProductsRequest cancel]`: the offline request has nothing to
    /// cancel, so the request is unchanged.
    pub fn cancel(&mut self)
        ensures
            *final(self) == *old(self),
    {
    }

    /// `touchHLE_deliverProductsResponse:`: begins offering the delegate,
    /// if there is one, the response and then the end of the request.
    pub fn start_delivery(&self) -> (delivery: DelegateDelivery)
        ensures
            delivery.wf(),
            delivery@.delegate == self.delegate,
            delivery@.messages == delegate_candidates(self.delegate, self.response),
            delivery@.position == 0,
    {
        let mut messages: Vec<RequestCallback> = Vec::new();
        if self.delegate != NIL {
            messages.push(RequestCallback::ReceivedResponse(self.response));
            messages.push(RequestCallback::Finished);
        }
        proof {
            assert(messages@ =~= delegate_candidates(self.delegate, self.response));
        }
        DelegateDelivery { delegate: self.delegate, messages, position: 0 }
    }

    /// The objects that `-dealloc` releases: the identifiers and the response,
    /// not the (weak) delegate.
    pub fn owned_objects(&self) -> (owned: Vec<Id>)
        ensures
            owned@ == self.owned(),
    {
        vec![self.identifiers, self.response]
    }
}

// ---------------------------------------------------------------------------
// Laws
// ---------------------------------------------------------------------------

/// A product title never holds a `.`, is a suffix of the identifier, and is
/// the whole identifier when the identifier holds no `.`.
pub proof fn lemma_last_segment(s: Seq<char>)
    ensures
        !last_segment(s).contains('.'),
        last_segment(s).len() <= s.len(),
        last_segment(s) == s.subrange(s.len() - last_segment(s).len(), s.len() as int),
        !s.contains('.') ==> last_segment(s) == s,
    decreases s.len(),
{
    if s.len() > 0 && s.last() != '.' {
        let d = s.drop_last();
        lemma_last_segment(d);
        let t = last_segment(d);
        assert(!t.push(s.last()).contains('.')) by {
            if t.push(s.last()).contains('.') {
                let j = choose|j: int| 0 <= j < t.push(s.last()).len() && t.push(s.last())[j] == '.';
                if j < t.len() {
                    assert(t[j] == '.');
                    assert(t.contains('.'));
                }
            }
        }
        assert(t.push(s.last()) =~= s.subrange(s.len() - t.len() - 1, s.len() as int));
        if !s.contains('.') {
            assert(!d.contains('.')) by {
                if d.contains('.') {
                    let j = choose|j: int| 0 <= j < d.len() && d[j] == '.';
                    assert(s[j] == '.');
                }
            }
            assert(d.push(s.last()) =~= s);
        }
    } else if s.len() > 0 {
        assert(s[s.len() - 1] == '.');
        assert(s.subrange(s.len() as int, s.len() as int) =~= Seq::<char>::empty());
    } else {
        assert(s.subrange(0, 0) =~= s);
    }
}

/// A fabricated product carries the requested identifier unchanged, as its
/// identifier and as its description; its title is the text after the
/// identifier's last `.` (any other character, `_` among them, stays in the
/// title), or the whole identifier when it has no `.`.
pub proof fn lemma_product_text(product: ProductStrings, identifier: Seq<char>)
    requires
        describes(product, identifier),
    ensures
        product.product_identifier@ == identifier,
        product.localized_description@ == identifier,
        ({
            let title = product.localized_title@;
            let start = identifier.len() - title.len();
            &&& 0 <= start <= identifier.len()
            &&& title == identifier.subrange(start, identifier.len() as int)
            &&& forall|j: int| start <= j < identifier.len() ==> identifier[j] != '.'
            &&& (start == 0 || identifier[start - 1] == '.')
        }),
{
    lemma_last_segment(identifier);
    lemma_last_segment_boundary(identifier);
    let title = last_segment(identifier);
    let start = identifier.len() - title.len();
    assert forall|j: int| start <= j < identifier.len() implies identifier[j] != '.' by {
        assert(title[j - start] == identifier[j]);
        if identifier[j] == '.' {
            assert(title.contains('.'));
        }
    }
}

/// The last segment starts at the beginning of the identifier or right after
/// a `.`.
proof fn lemma_last_segment_boundary(s: Seq<char>)
    ensures
        last_segment(s).len() == s.len() || s[s.len() - last_segment(s).len() - 1] == '.',
    decreases s.len(),
{
    if s.len() > 0 && s.last() != '.' {
        lemma_last_segment_boundary(s.drop_last());
        lemma_last_segment(s.drop_last());
        let t = last_segment(s.drop_last());
        if t.len() != s.len() - 1 {
            assert(s.drop_last()[s.len() - 1 - t.len() - 1] == '.');
        }
    }
}

/// Qualifying an identifier with a dotted prefix keeps its title.
pub proof fn lemma_last_segment_after_prefix(prefix: Seq<char>, s: Seq<char>)
    ensures
        last_segment(prefix.push('.') + s) == last_segment(s),
    decreases s.len(),
{
    let q = prefix.push('.');
    if s.len() == 0 {
        assert(q + s =~= q);
    } else {
        assert((q + s).drop_last() =~= q + s.drop_last());
        assert((q + s).last() == s.last());
        lemma_last_segment_after_prefix(prefix, s.drop_last());
    }
}

/// What a delegate delivery sends, step by step, is the messages the delegate
/// responds to: `delegate_messages` with its two answers.
pub proof fn lemma_delegate_delivery(delegate: Id, response: Id, a: bool, b: bool)
    ensures
        delegate != NIL ==> responding(delegate_candidates(delegate, response), seq![a, b])
            == delegate_messages(delegate, response, a, b),
        delegate == NIL ==> delegate_candidates(delegate, response).len() == 0
            && delegate_messages(delegate, response, a, b).len() == 0,
{
    if delegate != NIL {
        let c = delegate_candidates(delegate, response);
        let r = seq![a, b];
        assert(c.drop_last().drop_last() =~= Seq::<RequestCallback>::empty());
        assert(r.drop_last().drop_last() =~= Seq::<bool>::empty());
        assert(c.drop_last() =~= seq![RequestCallback::ReceivedResponse(response)]);
        assert(r.drop_last() =~= seq![a]);
        reveal_with_fuel(responding, 3);
        assert(responding(c, r) =~= delegate_messages(delegate, response, a, b));
    }
}

/// Every object a products object releases on `-dealloc` was retained when
/// it was built, or came to it already owned: a product's identifier (a
/// copy) and a request's response (freshly allocated).
pub proof fn lemma_product_ownership(
    product: SKProductHostObject,
    response: SKProductsResponseHostObject,
    request: SKProductsRequestHostObject,
)
    ensures
        product.owned() == seq![product.product_identifier] + product.retained(),
        response.owned() == response.retained(),
        request.owned() == seq![request.identifiers] + seq![request.response],
{
    assert(product.owned() =~= seq![product.product_identifier] + product.retained());
    assert(request.owned() =~= seq![request.identifiers] + seq![request.response]);
}

/// Without a delegate nothing is sent; with one, the response comes before
/// the end of the request, and a delegate that responds to both gets both.
pub proof fn lemma_delegate_messages(delegate: Id, response: Id)
    ensures
        forall|a: bool, b: bool| delegate_messages(NIL, response, a, b).len() == 0,
        delegate != NIL ==> delegate_messages(delegate, response, true, true) == seq![
            RequestCallback::ReceivedResponse(response),
            RequestCallback::Finished,
        ],
{
    if delegate != NIL {
        assert(delegate_messages(delegate, response, true, true) =~= seq![
            RequestCallback::ReceivedResponse(response),
            RequestCallback::Finished,
        ]);
    }
}

} // verus!
