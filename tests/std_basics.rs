use std::collections::HashMap;
use std::rc::Rc;
use std::sync::Mutex;

#[test]
fn _mutex() {
    let m = Mutex::new(5);

    {
        let mut num = m.lock().unwrap();
        *num = 6;
    }

    println!("m = {:?}", m);
}

#[test]
fn map() {
    let mut scores = HashMap::new();

    scores.insert(String::from("Blue"), 10);
    scores.insert(String::from("Yellow"), 50);

    let team_name = String::from("Blue");
    let _score = scores.get(&team_name);

    for (key, value) in &scores {
        println!("{}: {}", key, value);
    }

    let mut scores = HashMap::new();

    scores.insert("Blue", 10);

    let old = scores.insert("Blue", 20);
    assert_eq!(old, Some(10));

    let new = scores.get("Blue");
    assert_eq!(new, Some(&20));

    let v = scores.entry("Yellow").or_insert(5);
    assert_eq!(*v, 5);

    let v = scores.entry("Yellow").or_insert(50);
    assert_eq!(*v, 5);
}

#[test]
fn call_safe() {
    let mut v = vec![1, 2, 3, 4, 5, 6];
    let r = &mut v[..];
    let (a, b) = r.split_at_mut(3);
    assert_eq!(a, &mut [1, 2, 3]);
    assert_eq!(b, &mut [4, 5, 6]);
}

struct Closure<F> {
    data: (u8, u16),
    func: F,
}

impl<F> Closure<F>
where
    for<'a> F: Fn(&'a (u8, u16)) -> &'a u8,
{
    fn call(&self) -> &u8 {
        (self.func)(&self.data)
    }
}

fn do_it(data: &(u8, u16)) -> &u8 {
    &data.0
}

#[derive(Debug)]
struct Name {
    name: &'static str,
}

impl Drop for Name {
    fn drop(&mut self) {
        println!("Dropping {}", self.name);
    }
}

#[test]
fn lib_main() {
    let clo = Closure { data: (0, 1), func: do_it };
    println!("{}", clo.call());

    let array = Rc::new(Box::new([1, 2, 3]));
    let first_entry = array[0];
    println!("{}", first_entry);

    {
        let a = Name { name: "aa" };
        println!("1----------------");
        let b = a;

        println!("2----------------");
        let mut c = Name { name: "cc" };

        println!("3----------------");
        c = b;
        println!("c == {:?}", c);
        println!("4----------------");
    }
    println!("At end of main");
}
