//! Numbered slots for what a scene holds: cameras and lights are attached
//! to a slot and spoken of by the slot's number, the handle, until they are
//! detached. A slot that was emptied is used again.

use vstd::prelude::*;

verus! {

/// Largest number of lights that the shader program takes.
pub const MAX_LIGHTS: usize = 8;

/// What is said of a handle beyond the last slot.
pub open spec fn out_of_range() -> Seq<char> {
    "Out of range."@
}

/// What is said where a camera is asked for and none is active.
pub open spec fn no_active_camera() -> Seq<char> {
    "No currently active camera."@
}

/// The last empty slot, if there is an empty one.
pub open spec fn last_free<T>(slots: Seq<Option<T>>) -> Option<int>
    decreases slots.len(),
{
    if slots.len() == 0 {
        None
    } else if slots.last().is_none() {
        Some(slots.len() - 1)
    } else {
        last_free(slots.drop_last())
    }
}

/// `last_free` names an empty slot after which every slot is taken, and
/// none only if every slot is taken.
pub proof fn lemma_last_free<T>(slots: Seq<Option<T>>)
    ensures
        match last_free(slots) {
            Some(index) => {
                &&& 0 <= index < slots.len()
                &&& slots[index].is_none()
                &&& forall|i: int| index < i < slots.len() ==> (#[trigger] slots[i]).is_some()
            },
            None => forall|i: int| 0 <= i < slots.len() ==> (#[trigger] slots[i]).is_some(),
        },
    decreases slots.len(),
{
    if slots.len() > 0 && slots.last().is_some() {
        let rest = slots.drop_last();
        lemma_last_free(rest);
        assert forall|i: int| 0 <= i < rest.len() implies rest[i] == slots[i] by {}
        match last_free(rest) {
            Some(index) => {
                assert forall|i: int| index < i < slots.len() implies (#[trigger] slots[i]).is_some() by {
                    if i < rest.len() {
                        assert(rest[i].is_some());
                    }
                }
            },
            None => {
                assert forall|i: int| 0 <= i < slots.len() implies (#[trigger] slots[i]).is_some() by {
                    if i < rest.len() {
                        assert(rest[i].is_some());
                    }
                }
            },
        }
    }
}

/// Puts `light` into the last empty slot, or into a new slot at the end if
/// none is empty, and returns the slot's number.
pub fn add_light<T>(light: T, vector: &mut Vec<Option<T>>) -> (index: usize)
    ensures
        match last_free(old(vector)@) {
            Some(free) => index == free && final(vector)@ == old(vector)@.update(free, Some(light)),
            None => index == old(vector)@.len() && final(vector)@ == old(vector)@.push(Some(light)),
        },
{
    let mut found: Option<usize> = None;
    let mut i: usize = 0;
    while i < vector.len()
        invariant
            i <= vector@.len(),
            vector@ == old(vector)@,
            match found {
                Some(free) => last_free(vector@.take(i as int)) == Some(free as int),
                None => last_free(vector@.take(i as int)).is_none(),
            },
        decreases vector.len() - i,
    {
        proof {
            assert(vector@.take(i + 1).drop_last() == vector@.take(i as int));
        }
        if vector[i].is_none() {
            found = Some(i);
        }
        i += 1;
    }
    proof {
        assert(vector@.take(i as int) == vector@);
        lemma_last_free(vector@);
    }
    match found {
        None => {
            vector.push(Some(light));
            vector.len() - 1
        },
        Some(free) => {
            vector[free] = Some(light);
            free
        },
    }
}

/// Takes what is in slot `index` out and leaves the slot empty. The number
/// of slots stays.
pub fn remove_light<T>(vector: &mut Vec<Option<T>>, index: usize) -> (light: T)
    requires
        index < old(vector)@.len(),
        old(vector)@[index as int].is_some(),
    ensures
        light == old(vector)@[index as int].unwrap(),
        final(vector)@ == old(vector)@.update(index as int, None),
{
    vector.push(None);
    let light = vector.swap_remove(index).unwrap();
    proof {
        assert(vector@ =~= old(vector)@.update(index as int, None));
    }
    light
}

/// The numbers under which the shader program knows its lights, as far as
/// they are free.
pub struct LightIndices {
    free: Vec<usize>,
}

impl View for LightIndices {
    type V = Seq<usize>;

    closed spec fn view(&self) -> Seq<usize> {
        self.free@
    }
}

impl LightIndices {
    /// All numbers free: 0 up to `MAX_LIGHTS`, the highest to be taken
    /// first.
    pub fn new() -> (indices: LightIndices)
        ensures
            indices@ == Seq::new(MAX_LIGHTS as nat, |i: int| i as usize),
    {
        let mut free: Vec<usize> = Vec::new();
        let mut i: usize = 0;
        while i < MAX_LIGHTS
            invariant
                i <= MAX_LIGHTS,
                free@.len() == i,
                forall|k: int| 0 <= k < i ==> free@[k] == k,
            decreases MAX_LIGHTS - i,
        {
            free.push(i);
            i += 1;
        }
        proof {
            assert(free@ =~= Seq::new(MAX_LIGHTS as nat, |i: int| i as usize));
        }
        LightIndices { free }
    }

    /// Takes the number that was freed last, if any is free.
    pub fn take(&mut self) -> (index: Option<usize>)
        ensures
            old(self)@.len() == 0 ==> index.is_none() && final(self)@ == old(self)@,
            old(self)@.len() > 0 ==> index == Some(old(self)@.last()) && final(self)@ == old(
                self,
            )@.drop_last(),
    {
        let index = self.free.pop();
        proof {
            if old(self)@.len() > 0 {
                assert(self.free@ =~= old(self)@.drop_last());
            }
        }
        index
    }

    /// Frees a number again.
    pub fn give(&mut self, index: usize)
        ensures
            final(self)@ == old(self)@.push(index),
    {
        self.free.push(index);
    }
}

/// The cameras of a scene, and which of them is active.
pub struct Cameras<T> {
    cameras: Vec<Option<T>>,
    active_camera: Option<usize>,
}

impl<T> Cameras<T> {
    /// The slots, each empty or with a camera.
    pub closed spec fn slots(&self) -> Seq<Option<T>> {
        self.cameras@
    }

    /// The handle of the active camera, if one is active.
    pub closed spec fn active(&self) -> Option<usize> {
        self.active_camera
    }

    /// The slot of `handle` holds a camera.
    pub open spec fn holds(&self, handle: usize) -> bool {
        handle < self.slots().len() && self.slots()[handle as int].is_some()
    }

    /// No cameras, and none active.
    pub fn new() -> (cameras: Cameras<T>)
        ensures
            cameras.slots() == Seq::<Option<T>>::empty(),
            cameras.active().is_none(),
    {
        Cameras { cameras: Vec::new(), active_camera: None }
    }

    /// The handle of the active camera, if one is active.
    pub fn active_camera(&self) -> (active: Option<usize>)
        ensures
            active == self.active(),
    {
        self.active_camera
    }

    /// Number of slots, empty ones included.
    pub fn len(&self) -> (len: usize)
        ensures
            len == self.slots().len(),
    {
        self.cameras.len()
    }

    /// Whether the slot of `handle` holds a camera.
    pub fn is_attached(&self, handle: usize) -> (attached: bool)
        ensures
            attached == self.holds(handle),
    {
        handle < self.cameras.len() && self.cameras[handle].is_some()
    }

    /// Attaches a camera and returns its handle: the last empty slot, or a
    /// new slot at the end.
    pub fn attach_camera(&mut self, camera: T) -> (handle: usize)
        ensures
            final(self).active() == old(self).active(),
            match last_free(old(self).slots()) {
                Some(free) => handle == free && final(self).slots() == old(self).slots().update(
                    free,
                    Some(camera),
                ),
                None => handle == old(self).slots().len() && final(self).slots() == old(
                    self,
                ).slots().push(Some(camera)),
            },
    {
        add_light(camera, &mut self.cameras)
    }

    /// Detaches the camera of `handle` and leaves its slot empty. If it was
    /// the active camera, none is active afterwards.
    pub fn detach_camera(&mut self, handle: usize) -> (result: Result<(), String>)
        ensures
            match result {
                Ok(_) => {
                    &&& handle < old(self).slots().len()
                    &&& final(self).slots() == old(self).slots().update(handle as int, None)
                    &&& final(self).active() == if old(self).active() == Some(handle) {
                        None
                    } else {
                        old(self).active()
                    }
                },
                Err(message) => {
                    &&& handle >= old(self).slots().len()
                    &&& message@ == out_of_range()
                    &&& final(self).slots() == old(self).slots()
                    &&& final(self).active() == old(self).active()
                },
            },
    {
        if handle >= self.cameras.len() {
            return Err("Out of range.".to_string());
        }
        match self.active_camera {
            None => {},
            Some(c) => {
                if handle == c {
                    self.active_camera = None;
                }
            },
        }
        self.cameras[handle] = None;
        Ok(())
    }

    /// The camera of `handle`.
    pub fn get_camera(&self, handle: usize) -> (result: Result<&T, String>)
        requires
            handle < self.slots().len() ==> self.slots()[handle as int].is_some(),
        ensures
            match result {
                Ok(camera) => self.holds(handle) && *camera == self.slots()[handle as int].unwrap(),
                Err(message) => handle >= self.slots().len() && message@ == out_of_range(),
            },
    {
        if handle >= self.cameras.len() {
            return Err("Out of range.".to_string());
        }
        Ok(self.cameras[handle].as_ref().unwrap())
    }

    /// The camera of `handle`, to be changed in its slot.
    pub fn get_camera_mut(&mut self, handle: usize) -> (result: Result<&mut T, String>)
        requires
            handle < old(self).slots().len() ==> old(self).slots()[handle as int].is_some(),
        ensures
            final(self).active() == old(self).active(),
            match result {
                Ok(camera) => {
                    &&& old(self).holds(handle)
                    &&& *camera == old(self).slots()[handle as int].unwrap()
                    &&& final(self).slots() == old(self).slots().update(
                        handle as int,
                        Some(*final(camera)),
                    )
                },
                Err(message) => {
                    &&& handle >= old(self).slots().len()
                    &&& message@ == out_of_range()
                    &&& final(self).slots() == old(self).slots()
                },
            },
    {
        if handle >= self.cameras.len() {
            return Err("Out of range.".to_string());
        }
        Ok(self.cameras[handle].as_mut().unwrap())
    }

    /// The active camera, to be changed in its slot.
    pub fn get_active_camera_mut(&mut self) -> (result: Result<&mut T, String>)
        requires
            match old(self).active() {
                Some(handle) => handle < old(self).slots().len() ==> old(
                    self,
                ).slots()[handle as int].is_some(),
                None => true,
            },
        ensures
            final(self).active() == old(self).active(),
            match result {
                Ok(camera) => {
                    &&& old(self).active().is_some()
                    &&& old(self).holds(old(self).active().unwrap())
                    &&& *camera == old(self).slots()[old(self).active().unwrap() as int].unwrap()
                    &&& final(self).slots() == old(self).slots().update(
                        old(self).active().unwrap() as int,
                        Some(*final(camera)),
                    )
                },
                Err(message) => {
                    &&& final(self).slots() == old(self).slots()
                    &&& match old(self).active() {
                        None => message@ == no_active_camera(),
                        Some(handle) => handle >= old(self).slots().len() && message@
                            == out_of_range(),
                    }
                },
            },
    {
        match self.active_camera {
            None => Err("No currently active camera.".to_string()),
            Some(c) => self.get_camera_mut(c),
        }
    }

    /// The active camera.
    pub fn get_active_camera(&self) -> (result: Result<&T, String>)
        requires
            match self.active() {
                Some(handle) => handle < self.slots().len() ==> self.slots()[handle as int].is_some(),
                None => true,
            },
        ensures
            match result {
                Ok(camera) => {
                    &&& self.active().is_some()
                    &&& self.holds(self.active().unwrap())
                    &&& *camera == self.slots()[self.active().unwrap() as int].unwrap()
                },
                Err(message) => match self.active() {
                    None => message@ == no_active_camera(),
                    Some(handle) => handle >= self.slots().len() && message@ == out_of_range(),
                },
            },
    {
        match self.active_camera {
            None => Err("No currently active camera.".to_string()),
            Some(c) => self.get_camera(c),
        }
    }

    /// Makes the camera of `handle` the active one.
    pub fn set_active_camera(&mut self, handle: usize) -> (result: Result<(), String>)
        ensures
            final(self).slots() == old(self).slots(),
            match result {
                Ok(_) => handle < old(self).slots().len() && final(self).active() == Some(handle),
                Err(message) => {
                    &&& handle >= old(self).slots().len()
                    &&& message@ == out_of_range()
                    &&& final(self).active() == old(self).active()
                },
            },
    {
        if handle >= self.cameras.len() {
            return Err("Out of range.".to_string());
        }
        self.active_camera = Some(handle);
        Ok(())
    }
}

} // verus!
