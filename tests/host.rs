use rpc_host::call::{CallEvent, CallState, StatusCode};
use rpc_host::host::{standard_registry, HostError, ServiceHost};
use rpc_host::registry::{CallShape, Handler, HandlerDescriptor, RegistryError, ServiceRegistry};
use rpc_host::services::{PaymentRequest, PaymentResponse};

fn s(x: &str) -> String {
    x.to_string()
}

#[test]
fn duplicate_registration_keeps_first() {
    let mut reg = ServiceRegistry::new();
    assert_eq!(reg.register("svc", "M", CallShape::Unary, Handler::Payment), Ok(()));
    assert_eq!(
        reg.register("svc", "M", CallShape::BidiStream, Handler::Chat),
        Err(RegistryError::DuplicateMethod)
    );
    assert_eq!(reg.len(), 1);
    assert_eq!(
        reg.resolve(&s("svc"), &s("M")),
        Some(HandlerDescriptor { shape: CallShape::Unary, handler: Handler::Payment })
    );
}

#[test]
fn resolve_unknown_pair() {
    let reg = standard_registry();
    assert_eq!(reg.len(), 3);
    assert_eq!(reg.resolve(&s("services.ChatService"), &s("Nope")), None);
    assert_eq!(
        reg.resolve(&s("services.ChatService"), &s("Chat")),
        Some(HandlerDescriptor { shape: CallShape::BidiStream, handler: Handler::Chat })
    );
}

#[test]
fn two_unary_calls_complete_independently() {
    let mut reg = ServiceRegistry::new();
    assert_eq!(reg.register("pay.A", "Authorize", CallShape::Unary, Handler::Payment), Ok(()));
    assert_eq!(reg.register("pay.B", "Capture", CallShape::Unary, Handler::Payment), Ok(()));
    let host = ServiceHost::new(reg);
    let a = host.invoke_unary(&s("pay.A"), &s("Authorize"), &PaymentRequest {});
    let b = host.invoke_unary(&s("pay.B"), &s("Capture"), &PaymentRequest {});
    assert_eq!(a, Ok(PaymentResponse { success: true }));
    assert_eq!(b, Ok(PaymentResponse { success: true }));
    assert!(host.active_calls().is_empty());
}

#[test]
fn unary_errors() {
    let host = ServiceHost::new(standard_registry());
    assert_eq!(
        host.invoke_unary(&s("services.PaymentService"), &s("Refund"), &PaymentRequest {}),
        Err(HostError::UnknownMethod)
    );
    assert_eq!(
        host.invoke_unary(&s("services.ChatService"), &s("Chat"), &PaymentRequest {}),
        Err(HostError::WrongShape)
    );
    assert_eq!(
        host.invoke_unary(&s("services.PaymentService"), &s("ProcessPayment"), &PaymentRequest {}),
        Ok(PaymentResponse { success: true })
    );
}

#[test]
fn streaming_call_lifecycle_and_shutdown() {
    let mut host = ServiceHost::new(standard_registry());
    let (a, da) = host.accept(&s("services.TransactionService"), &s("GetTransactionHistory")).unwrap();
    let (b, _) = host.accept(&s("services.ChatService"), &s("Chat")).unwrap();
    let (c, _) = host.accept(&s("services.ChatService"), &s("Chat")).unwrap();
    assert_eq!((a, b, c), (0, 1, 2));
    assert_eq!(da.shape, CallShape::ServerStream);
    assert_eq!(host.accept(&s("x"), &s("y")), Err(HostError::UnknownMethod));
    assert_eq!(host.observe(a, CallEvent::Returned), Some(CallState::Completed));
    assert_eq!(host.observe(a, CallEvent::Returned), None);
    assert_eq!(host.observe(b, CallEvent::Start), Some(CallState::Running));
    assert_eq!(host.active_calls().len(), 2);
    assert_eq!(host.shutdown(), vec![1, 2]);
    assert!(host.active_calls().is_empty());
    assert_eq!(host.observe(c, CallEvent::Returned), None);
}

#[test]
fn call_state_transitions() {
    let s0 = CallState::Accepted;
    let running = s0.step(CallEvent::Start);
    assert_eq!(running, CallState::Running);
    assert_eq!(running.step(CallEvent::HandlerFailed), CallState::Failed(StatusCode::HandlerError));
    assert_eq!(running.step(CallEvent::Fault), CallState::Failed(StatusCode::InternalFault));
    assert_eq!(running.step(CallEvent::ChannelClosed), CallState::Cancelled);
    assert_eq!(running.step(CallEvent::InboundLost), CallState::Cancelled);
    assert_eq!(s0.step(CallEvent::ChannelClosed), CallState::Cancelled);
    assert_eq!(CallState::Completed.step(CallEvent::Fault), CallState::Completed);
    assert!(CallState::Cancelled.is_terminal());
    assert!(!running.is_terminal());
    assert_eq!(CallState::Cancelled.status(), Some(StatusCode::Cancelled));
    assert_eq!(running.step(CallEvent::Fault).status(), Some(StatusCode::InternalFault));
    assert_eq!(CallState::Completed.status(), None);
}
