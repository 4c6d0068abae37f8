use fungine::Fungine;
use fungine::GameObject;
use fungine::GameObjectWithID;
use fungine::Message;
use fungine::MessageWithID;
use fungine::UpdateResult;
use stopwatch::Stopwatch;

#[derive(Clone, Debug)]
struct TestMessage {
    pub value: i32,
}

impl Message for TestMessage {
    fn box_clone(&self) -> Self {
        self.clone()
    }
}

// A GameObject implementation with some state
#[derive(Clone, Debug)]
struct TestGameObject {
    pub value: i32,
}

impl GameObject<TestMessage> for TestGameObject {
    fn box_clone(&self) -> Self {
        self.clone()
    }

    // The update function simply increments the internal counter
    fn update(
        &self,
        _id: u64,
        _current_state: &Vec<GameObjectWithID<Self>>,
        _messages: &Vec<TestMessage>,
        _time: u64,
    ) -> UpdateResult<Self, TestMessage> {
        UpdateResult { state: TestGameObject { value: self.value + 1 }, messages: Vec::new() }
    }
}

#[derive(Clone, Debug)]
struct MessageGameObject {
    pub value: i32,
}

impl GameObject<TestMessage> for MessageGameObject {
    fn box_clone(&self) -> Self {
        self.clone()
    }

    // The update function adds the values of the incoming messages and sends
    // a message valued 1 to every other object
    fn update(
        &self,
        id: u64,
        current_state: &Vec<GameObjectWithID<Self>>,
        messages: &Vec<TestMessage>,
        _time: u64,
    ) -> UpdateResult<Self, TestMessage> {
        let mut new_value: i32 = self.value;
        for message in messages.iter() {
            new_value += message.value;
        }
        let mut new_messages = Vec::new();
        for state in current_state.iter() {
            if state.id != id {
                new_messages.push(MessageWithID {
                    id: state.id,
                    message: TestMessage { value: 1 },
                });
            }
        }
        UpdateResult { state: MessageGameObject { value: new_value }, messages: new_messages }
    }
}

// A single object, single iteration test to make sure state is passed around correctly
#[test]
fn test_iterate() {
    let initial_object = TestGameObject { value: 0 };
    let initial_object = GameObjectWithID { id: 0u64, game_object: initial_object };
    let initial_state = vec![initial_object];
    let engine: Fungine<TestGameObject, TestMessage> = Fungine::new(initial_state);
    let next_states = engine.run_steps(1, 1);
    let next_object = &next_states[0].game_object;
    assert_eq!(1, next_object.value);
}

// Run 1000 steps on 1000 objects to check state and benchmark speed
#[test]
fn speed_test() {
    let mut initial_state = Vec::new();
    for i in 0..1000u64 {
        let initial_object = TestGameObject { value: 0 };
        let initial_object = GameObjectWithID { id: i, game_object: initial_object };
        initial_state.push(initial_object);
    }
    let engine: Fungine<TestGameObject, TestMessage> = Fungine::new(initial_state);
    let sw = Stopwatch::start_new();
    let final_states = engine.run_steps(1000, 1);
    println!("Time taken: {}ms", sw.elapsed_ms());
    for x in 0..final_states.len() {
        let object = &final_states[x].game_object;
        assert_eq!(1000, object.value);
    }
}

// Test messages can be sent, read and processed
#[test]
fn message_test() {
    let mut initial_state = vec![];
    for i in 0u64..3u64 {
        let initial_object = MessageGameObject { value: 0 };
        let initial_object = GameObjectWithID { id: i, game_object: initial_object };
        initial_state.push(initial_object);
    }
    let engine: Fungine<MessageGameObject, TestMessage> = Fungine::new(initial_state);
    let next_states = engine.run_steps(2, 1);
    for i in 0..3 {
        let next_object = &next_states[i].game_object;
        assert_eq!(2, next_object.value);
    }
}

// A single object stepped once through the dispatcher directly
#[test]
fn lib_test_iterate() {
    let initial_object = TestGameObject { value: 0 };
    let initial_object = GameObjectWithID { id: 0u64, game_object: initial_object };
    let initial_state = vec![initial_object];
    let engine: Fungine<TestGameObject, TestMessage> = Fungine::new(initial_state);
    let (next_state, _next_messages) =
        Fungine::step_engine(&engine.initial_state, 1, &engine.messages);
    assert!(next_state[0].game_object.value == 1);
}

// Step 1000 objects 1001 times through the dispatcher directly
#[test]
fn lib_speed_test() {
    let mut initial_state = Vec::new();
    for i in 0..1000u64 {
        let initial_object = TestGameObject { value: 0 };
        let initial_object = GameObjectWithID { id: i, game_object: initial_object };
        initial_state.push(initial_object);
    }
    let engine: Fungine<TestGameObject, TestMessage> = Fungine::new(initial_state);
    let sw = Stopwatch::start_new();
    let (mut current_state, mut current_messages) =
        Fungine::step_engine(&engine.initial_state, 1, &engine.messages);
    for _ in 0..1000 {
        let stepped = Fungine::step_engine(&current_state, 1, &current_messages);
        current_state = stepped.0;
        current_messages = stepped.1;
    }
    for x in 0..current_state.len() {
        assert!(current_state[x].game_object.value == 1001);
    }
    println!("Time taken: {}ms", sw.elapsed_ms());
}
