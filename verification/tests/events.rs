use limn_core::button::{
    button_look, button_text, ButtonDownHandler, ButtonLook, ChangePropEvent, ElementState,
    InputEvent, ToggleEventHandler, WidgetProperty,
};
use limn_core::dispatch::{bubble_up, first_address, Address, Registry};
use limn_core::event::{
    event, queue_is_empty, queue_next, queue_set_window, Queue, Sent, Target, WidgetId,
};

#[test]
fn events_leave_in_push_order() {
    let mut queue: Queue<&str> = Queue::new();
    queue.push(Target::Widget(WidgetId(5)), 1, "event a");
    queue.push(Target::Ui, 2, "event b");
    let first = queue.next();
    assert_eq!((first.address, first.type_tag, first.data), (Target::Widget(WidgetId(5)), 1, "event a"));
    let second = queue.next();
    assert_eq!((second.address, second.type_tag, second.data), (Target::Ui, 2, "event b"));
    assert!(queue.is_empty());
}

#[test]
fn many_events_leave_in_push_order() {
    let mut queue: Queue<usize> = Queue::new();
    assert!(queue.is_empty());
    for i in 0..100 {
        let address = if i % 3 == 0 { Target::Ui } else { Target::BubbleUp(WidgetId(i)) };
        queue.push(address, (i % 7) as u64, i);
        assert!(!queue.is_empty());
    }
    for i in 0..100 {
        assert!(!queue.is_empty());
        let e = queue.next();
        let address = if i % 3 == 0 { Target::Ui } else { Target::BubbleUp(WidgetId(i)) };
        assert_eq!((e.address, e.type_tag, e.data), (address, (i % 7) as u64, i));
    }
    assert!(queue.is_empty());
}

#[test]
fn pushes_and_pops_may_alternate() {
    let mut queue: Queue<u8> = Queue::new();
    queue.push(Target::Ui, 0, 1);
    queue.push(Target::Ui, 0, 2);
    assert_eq!(queue.next().data, 1);
    queue.push(Target::Ui, 0, 3);
    assert_eq!(queue.next().data, 2);
    assert_eq!(queue.next().data, 3);
    assert!(queue.is_empty());
}

#[test]
fn a_push_wakes_the_window_once_one_is_attached() {
    let mut queue: Queue<u8> = Queue::new();
    assert!(!queue.push(Target::Ui, 0, 1));
    queue.set_window();
    assert!(queue.push(Target::Child(WidgetId(1)), 0, 2));
    assert_eq!(queue.next().data, 1);
    assert!(queue.push(Target::SubTree(WidgetId(1)), 0, 3));
}

#[test]
fn the_queue_of_the_thread() {
    let mut local: Option<Queue<u8>> = Some(Queue::new());
    assert!(queue_is_empty(&local));
    assert_eq!(event(&mut local, Target::Widget(WidgetId(5)), 4, 10), Sent::Queued { wake: false });
    queue_set_window(&mut local);
    assert_eq!(event(&mut local, Target::Ui, 6, 20), Sent::Queued { wake: true });
    assert!(!queue_is_empty(&local));
    let first = queue_next(&mut local);
    assert_eq!((first.address, first.type_tag, first.data), (Target::Widget(WidgetId(5)), 4, 10));
    let second = queue_next(&mut local);
    assert_eq!((second.address, second.type_tag, second.data), (Target::Ui, 6, 20));
    assert!(queue_is_empty(&local));
}

#[test]
fn an_event_from_another_thread_is_dropped() {
    let mut local: Option<Queue<u8>> = None;
    assert_eq!(event(&mut local, Target::Ui, 1, 10), Sent::OffThread);
    assert!(local.is_none());
}

#[test]
fn handlers_are_found_in_registration_order() {
    let mut registry = Registry::new();
    let button = Address::Widget(WidgetId(1));
    let label = Address::Widget(WidgetId(2));
    assert_eq!(registry.register(button, 10), 0);
    assert_eq!(registry.register(label, 10), 1);
    assert_eq!(registry.register(button, 11), 2);
    assert_eq!(registry.register(Address::Ui, 10), 3);
    assert_eq!(registry.register(button, 10), 4);
    assert_eq!(registry.handlers_for(button, 10), vec![0, 4]);
    assert_eq!(registry.handlers_for(button, 11), vec![2]);
    assert_eq!(registry.handlers_for(label, 10), vec![1]);
    assert_eq!(registry.handlers_for(Address::Ui, 10), vec![3]);
    assert_eq!(registry.handlers_for(Address::Ui, 11), Vec::<usize>::new());
    assert_eq!(registry.handlers_for(Address::Widget(WidgetId(3)), 10), Vec::<usize>::new());
    assert_eq!(Registry::new().handlers_for(Address::Ui, 0), Vec::<usize>::new());
}

#[test]
fn delivery_starts_at_the_named_address() {
    assert_eq!(first_address(Target::Widget(WidgetId(4))), Some(Address::Widget(WidgetId(4))));
    assert_eq!(first_address(Target::BubbleUp(WidgetId(4))), Some(Address::Widget(WidgetId(4))));
    assert_eq!(first_address(Target::Ui), Some(Address::Ui));
    assert_eq!(first_address(Target::Child(WidgetId(4))), None);
    assert_eq!(first_address(Target::SubTree(WidgetId(4))), None);
}

#[test]
fn a_handled_event_stops_bubbling() {
    assert_eq!(bubble_up(false, Some(WidgetId(2))), Some(Address::Widget(WidgetId(2))));
    assert_eq!(bubble_up(true, Some(WidgetId(2))), None);
    assert_eq!(bubble_up(false, None), None);
    assert_eq!(bubble_up(true, None), None);
}

#[test]
fn button_shows_whether_it_is_held_down() {
    let mut handler = ButtonDownHandler {};
    let id = WidgetId(9);
    assert_eq!(
        handler.handle_event(id, InputEvent::MouseInput(ElementState::Pressed)),
        Some((Target::SubTree(id), ChangePropEvent { property: WidgetProperty::Pressed, add: true }))
    );
    assert_eq!(
        handler.handle_event(id, InputEvent::MouseInput(ElementState::Released)),
        Some((Target::SubTree(id), ChangePropEvent { property: WidgetProperty::Pressed, add: false }))
    );
    assert_eq!(handler.handle_event(id, InputEvent::Other), None);
}

#[test]
fn toggle_button_flips_on_release() {
    let mut handler = ToggleEventHandler {};
    let id = WidgetId(9);
    let released = InputEvent::MouseInput(ElementState::Released);
    assert_eq!(
        handler.handle_event(id, released, false),
        Some((Target::SubTree(id), ChangePropEvent { property: WidgetProperty::Activated, add: true }))
    );
    assert_eq!(
        handler.handle_event(id, released, true),
        Some((Target::SubTree(id), ChangePropEvent { property: WidgetProperty::Activated, add: false }))
    );
    assert_eq!(handler.handle_event(id, InputEvent::MouseInput(ElementState::Pressed), true), None);
    assert_eq!(handler.handle_event(id, InputEvent::Other, false), None);
}

#[test]
fn toggle_button_look_and_text() {
    assert_eq!(button_look(true, true), ButtonLook::ActivatedPressed);
    assert_eq!(button_look(false, true), ButtonLook::Activated);
    assert_eq!(button_look(true, false), ButtonLook::UnactivatedPressed);
    assert_eq!(button_look(false, false), ButtonLook::Unactivated);
    assert_eq!(button_text(true, "on", "off"), "on");
    assert_eq!(button_text(false, "on", "off"), "off");
}

#[test]
fn only_the_first_thread_owns_a_queue() {
    let mut first_thread = true;
    let first: Option<Queue<u8>> = limn_core::event::local_queue(&mut first_thread);
    assert!(!first_thread);
    assert!(first.is_some());
    assert!(queue_is_empty(&first));
    let second: Option<Queue<u8>> = limn_core::event::local_queue(&mut first_thread);
    assert!(!first_thread);
    assert!(second.is_none());
}
