use lib::store_kit::sk_product::{
    answer_products_request, make_product, product_title, RequestCallback, SKProductHostObject,
    SKProductsRequestHostObject, SKProductsResponseHostObject,
};
use lib::store_kit::NIL;

#[test]
fn title_is_the_last_segment() {
    assert_eq!(product_title("com.game.gems100"), "gems100");
    assert_eq!(product_title("gems"), "gems");
    assert_eq!(product_title("com.game."), "");
    assert_eq!(product_title(""), "");
    assert_eq!(product_title(".lead"), "lead");
    assert_eq!(product_title("jp.ä.ëé"), "ëé");
}

#[test]
fn product_text_from_identifier() {
    let product = make_product("com.nexon.talesweaver.cash1000");
    assert_eq!(product.product_identifier, "com.nexon.talesweaver.cash1000");
    assert_eq!(product.localized_title, "cash1000");
    assert_eq!(product.localized_description, "com.nexon.talesweaver.cash1000");
}

#[test]
fn every_identifier_gets_a_product() {
    let identifiers = vec!["a.b".to_string(), "c".to_string(), "x.y.z".to_string()];
    let answer = answer_products_request(&identifiers);
    assert_eq!(answer.products.len(), 3);
    assert_eq!(answer.products[0].localized_title, "b");
    assert_eq!(answer.products[1].localized_title, "c");
    assert_eq!(answer.products[2].localized_title, "z");
    assert_eq!(answer.products[2].product_identifier, "x.y.z");
    assert!(answer.invalid_product_identifiers.is_empty());
    assert!(answer_products_request(&Vec::new()).products.is_empty());
}

#[test]
fn product_objects_released_on_dealloc() {
    let product = SKProductHostObject {
        product_identifier: 1,
        localized_title: 2,
        localized_description: 3,
        price: 4,
        price_locale: 5,
    };
    assert_eq!(product.product_identifier(), 1);
    assert_eq!(product.localized_title(), 2);
    assert_eq!(product.localized_description(), 3);
    assert_eq!(product.price(), 4);
    assert_eq!(product.price_locale(), 5);
    assert_eq!(product.owned_objects(), vec![1, 2, 3, 4, 5]);
    assert_eq!(product.retained_on_creation(), vec![2, 3, 4, 5]);
    assert_eq!(SKProductHostObject::default().owned_objects(), vec![NIL; 5]);
}

#[test]
fn response_holds_its_arrays() {
    let response = SKProductsResponseHostObject::new(0x10, 0x20);
    assert_eq!(response.products(), 0x10);
    assert_eq!(response.invalid_product_identifiers(), 0x20);
    assert_eq!(response.owned_objects(), vec![0x10, 0x20]);
    assert_eq!(response.retained_on_creation(), vec![0x10, 0x20]);
}

fn run_delivery(request: &SKProductsRequestHostObject, responds: &[bool]) -> Vec<RequestCallback> {
    let mut delivery = request.start_delivery();
    let mut sent = Vec::new();
    let mut asked = 0;
    while delivery.next_message().is_some() {
        if let Some(message) = delivery.answer(responds[asked]) {
            sent.push(message);
        }
        asked += 1;
    }
    sent
}

#[test]
fn request_without_delegate_sends_nothing() {
    let mut request = SKProductsRequestHostObject::default();
    assert_eq!(request.init_with_product_identifiers(0x30), 0x30);
    request.set_response(0x40);
    assert_eq!(request.start_delivery().next_message(), None);
    assert!(run_delivery(&request, &[]).is_empty());
}

#[test]
fn request_delivers_to_its_delegate() {
    let mut request = SKProductsRequestHostObject::default();
    request.init_with_product_identifiers(0x30);
    request.set_delegate(0x99);
    request.set_response(0x40);
    assert_eq!(request.delegate(), 0x99);
    assert_eq!(request.start_delivery().delegate(), 0x99);
    assert_eq!(
        run_delivery(&request, &[true, true]),
        vec![RequestCallback::ReceivedResponse(0x40), RequestCallback::Finished]
    );
    assert_eq!(run_delivery(&request, &[false, true]), vec![RequestCallback::Finished]);
    assert_eq!(run_delivery(&request, &[true, false]), vec![RequestCallback::ReceivedResponse(0x40)]);
    assert!(run_delivery(&request, &[false, false]).is_empty());
    request.cancel();
    assert_eq!(request.delegate(), 0x99);
    assert_eq!(request.owned_objects(), vec![0x30, 0x40]);
}

#[test]
fn request_callback_selectors() {
    assert_eq!(
        RequestCallback::ReceivedResponse(1).selector(),
        "productsRequest:didReceiveResponse:"
    );
    assert_eq!(RequestCallback::Finished.selector(), "requestDidFinish:");
}
