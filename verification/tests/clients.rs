use segmented_encoder::clients::{
    intercept_credentials, parse_registration, registration_bytes, AuthFailure, AuthResult,
    AuthenticationExtension, InvalidWorkerId, Service,
};

#[test]
fn new_service_has_no_clients() {
    let service = Service::new();
    assert_eq!(service.client_count(), 0);
}

#[test]
fn register_client_increment_client_count() {
    let mut service = Service::new();
    service.register_client();
    assert_eq!(service.client_count(), 1);
    service.register_client();
    assert_eq!(service.client_count(), 2);
}

#[test]
fn get_client_id_return_same_object_than_register() {
    let mut service = Service::new();
    let id = service.register_client();
    assert!(service.get_client(&id));
}

#[test]
fn two_clients_are_different() {
    let mut service = Service::new();
    let client_1 = service.register_client();
    let client_2 = service.register_client();
    assert_ne!(client_1, client_2);
}

#[test]
fn remove_client_decrement_count() {
    let mut service = Service::new();
    let id = service.register_client();
    let _id = service.register_client();
    service.erase_client(&id);
    assert_eq!(service.client_count(), 1);
}

#[test]
fn remove_two_times() {
    let mut service = Service::new();
    let id = service.register_client();
    let _id = service.register_client();
    service.erase_client(&id);
    service.erase_client(&id);
    assert_eq!(service.client_count(), 1);
}

#[test]
fn get_after_remove_returns_none() {
    let mut service = Service::new();
    let id = service.register_client();
    service.erase_client(&id);
    assert!(!service.get_client(&id));
}

#[test]
fn registered_ids_are_random_uuids() {
    let mut service = Service::new();
    let id = service.register_client();
    assert_eq!((id >> 76) & 0xF, 4, "version 4");
    assert_eq!((id >> 62) & 0x3, 2, "RFC 4122 variant");
}

#[test]
fn registration_bytes_are_big_endian() {
    let id: u128 = 0x0011_2233_4455_6677_8899_aabb_ccdd_eeff;
    let bytes = registration_bytes(id);
    assert_eq!(
        bytes,
        vec![0x00, 0x11, 0x22, 0x33, 0x44, 0x55, 0x66, 0x77, 0x88, 0x99, 0xaa, 0xbb, 0xcc, 0xdd, 0xee, 0xff]
    );
    assert_eq!(parse_registration(&bytes), Ok(id));
}

#[test]
fn registration_needs_sixteen_bytes() {
    assert_eq!(parse_registration(&[0u8; 15]), Err(InvalidWorkerId));
    assert_eq!(parse_registration(&[0u8; 17]), Err(InvalidWorkerId));
    assert_eq!(parse_registration(&[]), Err(InvalidWorkerId));
}

#[test]
fn credentials_without_worker_id_are_empty() {
    assert_eq!(intercept_credentials(None), Ok(AuthenticationExtension(None)));
}

#[test]
fn credentials_read_a_hyphenated_uuid() {
    let text = b"67e55044-10b1-426f-9247-bb680e5fe0c8";
    assert_eq!(
        intercept_credentials(Some(text)),
        Ok(AuthenticationExtension(Some(0x67e5_5044_10b1_426f_9247_bb68_0e5f_e0c8)))
    );
}

#[test]
fn credentials_refuse_text_that_is_not_a_uuid() {
    assert_eq!(
        intercept_credentials(Some(b"not-a-uuid")),
        Err(AuthFailure::InvalidAuthentication)
    );
    assert_eq!(
        intercept_credentials(Some(&[0xFF, 0x00])),
        Err(AuthFailure::InvalidAuthentication)
    );
}

#[test]
fn registered_worker_is_authenticated() {
    let mut service = Service::new();
    let id = service.register_client();
    let ext = AuthenticationExtension(Some(id));
    assert_eq!(ext.verify(&service), AuthResult::Successful(id));
    assert_eq!(ext.verify(&service).successful(), Ok(id));
    service.erase_client(&id);
    assert_eq!(ext.verify(&service), AuthResult::Failed(AuthFailure::UnknownId));
}

#[test]
fn request_without_credentials_is_not_authenticated() {
    let service = Service::new();
    let res = AuthenticationExtension(None).verify(&service);
    assert_eq!(res, AuthResult::NoAuth);
    assert_eq!(res.successful(), Err(AuthFailure::NotAuthenticated));
    assert_eq!(
        AuthenticationExtension::verify_request(None, &service),
        AuthResult::Failed(AuthFailure::MissingExtension)
    );
}

#[test]
fn register_client_returns_uuid() {
    let mut service = Service::new();
    let bytes = segmented_encoder::clients::register_client(&mut service);
    let id = parse_registration(&bytes).unwrap();
    assert_ne!(id, 0, "worker_id should not be null");
    assert!(service.get_client(&id));
}

#[test]
fn get_worker_registration_needs_authentication() {
    let service = Service::new();
    assert_eq!(
        segmented_encoder::clients::get_worker_registration(Some(AuthenticationExtension(None)), &service),
        Err(AuthFailure::NotAuthenticated)
    );
    assert_eq!(
        segmented_encoder::clients::get_worker_registration(None, &service),
        Err(AuthFailure::MissingExtension)
    );
}

#[test]
fn get_worker_registration_authenticated() {
    let mut service = Service::new();
    let id = service.register_client();
    let got = segmented_encoder::clients::get_worker_registration(Some(AuthenticationExtension(Some(id))), &service)
        .expect("Should allow authenticated");
    assert_eq!(parse_registration(&got), Ok(id));
}

#[test]
fn random_uuid_is_not_authenticated() {
    let mut service = Service::new();
    let id = service.register_client();
    assert_eq!(
        segmented_encoder::clients::get_worker_registration(Some(AuthenticationExtension(Some(id ^ 1))), &service),
        Err(AuthFailure::UnknownId)
    );
}

#[test]
fn status_has_registered_workers_id() {
    let mut service = Service::new();
    let id = service.register_client();
    assert_eq!(service.client_ids(), vec![id]);
}
