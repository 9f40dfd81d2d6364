use v3ct::V3ct;

#[derive(Copy, Clone)]
struct User<'a> {
    name: &'a str,
    address: &'a str,
    age: i8,
}

impl<'a> User<'a> {
    pub fn new(name: &'a str, address: &'a str, age: i8) -> Self {
        Self { name, address, age }
    }
}

#[test]
fn struct_works() {
    let mut vec = V3ct::<User>::new();
    vec.queue(User::new("User 1", "Address 1", 21));
    vec.queue(User::new("User 2", "Address 2", 21));
    vec.queue(User::new("User 3", "Address 3", 21));
    vec.queue(User::new("User 4", "Address 4", 21));

    vec.push(User::new("User 5", "Address 5", 21));
    vec.push(User::new("User 6", "Address 6", 21));

    assert_eq!(6, vec.size());

    assert_eq!("User 6", vec.start().unwrap().name);
    assert_eq!("User 6", vec.pop().unwrap().name);

    assert_eq!(5, vec.size());
    assert_eq!("User 5", vec.start().unwrap().name);

    assert_eq!("User 4", vec.end().unwrap().name);
}

#[test]
fn it_works() {
    let mut vec = V3ct::<i32>::new();
    vec.push(10);
    vec.push(11);

    vec.queue(12);
    vec.queue(13);

    vec.push(14);

    assert_eq!(5, vec.size());

    assert_eq!(14, vec.start().unwrap());
    assert_eq!(13, vec.end().unwrap());

    assert_eq!(14, vec.get(0).unwrap());
    assert_eq!(11, vec.get(1).unwrap());
    assert_eq!(10, vec.get(2).unwrap());
    assert_eq!(12, vec.get(3).unwrap());
    assert_eq!(13, vec.get(4).unwrap());
}

#[test]
fn user_fields_carry_through() {
    let mut vec = V3ct::<User>::new();
    vec.queue(User::new("User 1", "Address 1", 21));
    vec.push(User::new("User 2", "Address 2", 34));

    let first = vec.start().unwrap();
    assert_eq!("User 2", first.name);
    assert_eq!("Address 2", first.address);
    assert_eq!(34, first.age);

    let last = vec.end().unwrap();
    assert_eq!("User 1", last.name);
    assert_eq!("Address 1", last.address);
    assert_eq!(21, last.age);
}
