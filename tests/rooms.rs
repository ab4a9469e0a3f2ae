use roomba::api::Region;
use roomba::rooms::{Event, Room, StatefulList};

fn list(marks: &[bool]) -> StatefulList<String> {
    StatefulList::with_items(
        marks
            .iter()
            .enumerate()
            .map(|(i, m)| (format!("r{}", i), *m))
            .collect(),
    )
}

fn names(l: &StatefulList<String>) -> Vec<String> {
    l.items.iter().map(|x| x.0.clone()).collect()
}

#[test]
fn cursor_wraps_both_ways() {
    let mut l = list(&[false, false, false]);
    assert_eq!(l.selected, None);
    l.next();
    assert_eq!(l.selected, Some(0));
    l.next();
    l.next();
    assert_eq!(l.selected, Some(2));
    l.next();
    assert_eq!(l.selected, Some(0));
    l.previous();
    assert_eq!(l.selected, Some(2));
    l.unselect();
    assert_eq!(l.selected, None);
    l.previous();
    assert_eq!(l.selected, Some(0));
}

#[test]
fn empty_list_cursor_stays_at_start() {
    let mut l = list(&[]);
    l.next();
    l.next();
    assert_eq!(l.selected, Some(0));
    l.previous();
    assert_eq!(l.selected, Some(0));
    l.select();
    l.move_down();
    l.move_up();
    assert!(l.items.is_empty());
}

#[test]
fn chosen_items_come_first_in_order() {
    let mut l = list(&[false, false, false, false]);
    l.selected = Some(2);
    l.select();
    assert_eq!(names(&l), vec!["r2", "r0", "r1", "r3"]);
    l.selected = Some(3);
    l.select();
    assert_eq!(names(&l), vec!["r2", "r3", "r0", "r1"]);
    l.selected = Some(0);
    l.select();
    assert_eq!(names(&l), vec!["r3", "r2", "r0", "r1"]);
    assert_eq!(l.items[0].1, true);
    assert_eq!(l.items[1].1, false);
}

#[test]
fn chosen_items_trade_places() {
    let mut l = list(&[true, true, false]);
    l.selected = Some(1);
    l.move_up();
    assert_eq!(names(&l), vec!["r1", "r0", "r2"]);
    assert_eq!(l.selected, Some(0));
    l.move_up();
    assert_eq!(l.selected, Some(0));
    l.move_down();
    assert_eq!(names(&l), vec!["r0", "r1", "r2"]);
    assert_eq!(l.selected, Some(1));
    l.move_down();
    assert_eq!(names(&l), vec!["r0", "r1", "r2"]);
    assert_eq!(l.selected, Some(1));
}

#[test]
fn rooms_carry_their_region() {
    let room = Room { name: "Kitchen".to_string(), region: Region::from_id(4) };
    assert_eq!(room.label(), "Kitchen");
    assert_eq!(room.region.region_id, "4");
    let Event::Input(k) = Event::Input('q');
    assert_eq!(k, 'q');
}

#[test]
fn start_job_takes_chosen_rooms_in_order() {
    let room = |name: &str, id: u64| Room { name: name.to_string(), region: Region::from_id(id) };
    let mut l = StatefulList::with_items(vec![
        (room("Hall", 1), false),
        (room("Kitchen", 2), false),
        (room("Bath", 3), false),
    ]);
    l.selected = Some(2);
    l.select();
    l.selected = Some(2);
    l.select();
    let extra = l.start_job("map", "ver");
    let roomba::api::Extra::StartRegions(sr) = extra;
    assert_eq!(sr.ordered, 1);
    assert_eq!(sr.pmap_id, "map");
    assert_eq!(sr.user_pmapv_id, "ver");
    let ids: Vec<String> = sr.regions.iter().map(|r| r.region_id.clone()).collect();
    assert_eq!(ids, vec!["3", "2"]);
    assert_eq!(l.chosen_regions().len(), 2);
}
