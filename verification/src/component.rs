//! Component types, their live instances, and the contexts in which
//! expressions are evaluated.

use crate::expression::Type;
use crate::value::{kind_of, Value, ValueKind, ValueView};
use vstd::prelude::*;

verus! {

/// An element of the element tree.
#[derive(Clone, Debug)]
pub struct Element {
    pub id: String,
    pub base_type: Type,
    /// The index of the component that declares the element.
    pub enclosing_component: usize,
}

/// A component of the element tree.
#[derive(Clone, Debug)]
pub struct Component {
    /// The index of the component's root element.
    pub root_element: usize,
    /// The index of the element that the component is instantiated under, if any.
    pub parent_element: Option<usize>,
}

/// The elements and components of a document. They name each other by index,
/// so an element can point back at the component around it.
#[derive(Clone, Debug)]
pub struct ElementTree {
    pub elements: Vec<Element>,
    pub components: Vec<Component>,
}

impl ElementTree {
    /// Whether the tree holds the element, the component that declares it, and
    /// that component's root element.
    pub open spec fn resolves(&self, element: usize) -> bool {
        &&& element < self.elements.len()
        &&& self.elements[element as int].enclosing_component < self.components.len()
        &&& self.components[self.elements[element as int].enclosing_component as int].root_element
            < self.elements.len()
    }

    /// Whether the element resolves, and bears the id of the root element of
    /// the component that declares it.
    pub open spec fn is_root(&self, element: usize) -> bool {
        let declared = self.elements[element as int];
        let component = self.components[declared.enclosing_component as int];
        self.resolves(element) && self.elements[component.root_element as int].id@ == declared.id@
    }
}

/// How a property changes over time when it is set. The storage of this
/// library takes the new value at once.
#[derive(Clone, Copy, Debug)]
pub struct PropertyAnimation {
    pub duration: i32,
    pub loop_count: i32,
}

/// Access to one property of an item, whatever the item and the property are.
/// An item is a run of slots in the storage of an instance, given by the index
/// of its first slot.
pub trait ErasedPropertyInfo {
    /// The place of the property within its item.
    spec fn slot_offset(&self) -> nat;

    /// Whether the property takes the value.
    spec fn accepts(&self, value: ValueView) -> bool;

    /// The current value of the property of the item at `item`.
    fn get(&self, storage: &Vec<Value>, item: usize) -> (r: Result<Value, ()>)
        ensures
            r is Ok <==> item + self.slot_offset() < storage.len(),
            r matches Ok(v) ==> v@ == storage[item + self.slot_offset()]@,
    ;

    /// Sets the property of the item at `item`.
    fn set(
        &self,
        storage: &mut Vec<Value>,
        item: usize,
        value: Value,
        animation: Option<PropertyAnimation>,
    ) -> (r: Result<(), ()>)
        ensures
            r is Ok <==> item + self.slot_offset() < old(storage).len() && self.accepts(value@),
            r is Ok ==> final(storage)@ == old(storage)@.update(item + self.slot_offset(), value),
            r is Err ==> *final(storage) == *old(storage),
    ;

    /// The place of the property within its item.
    fn offset(&self) -> (r: usize)
        ensures
            r == self.slot_offset(),
    ;
}

/// A property that lives in one slot and takes values of one kind.
#[derive(Clone, Copy, Debug)]
pub struct PropertyInfo {
    pub offset: usize,
    pub kind: ValueKind,
}

impl ErasedPropertyInfo for PropertyInfo {
    open spec fn slot_offset(&self) -> nat {
        self.offset as nat
    }

    open spec fn accepts(&self, value: ValueView) -> bool {
        kind_of(value) == self.kind
    }

    fn get(&self, storage: &Vec<Value>, item: usize) -> (r: Result<Value, ()>) {
        if item < storage.len() && self.offset < storage.len() - item {
            Ok(storage[item + self.offset].duplicate())
        } else {
            Err(())
        }
    }

    fn set(
        &self,
        storage: &mut Vec<Value>,
        item: usize,
        value: Value,
        animation: Option<PropertyAnimation>,
    ) -> (r: Result<(), ()>) {
        if item < storage.len() && self.offset < storage.len() - item && value.kind() == self.kind {
            storage.set(item + self.offset, value);
            Ok(())
        } else {
            Err(())
        }
    }

    fn offset(&self) -> (r: usize) {
        self.offset
    }
}


/// A property that a component declares: its accessor, and the first slot of
/// the run that the accessor works on.
#[derive(Clone, Copy, Debug)]
pub struct PropertiesWithinComponent {
    pub offset: usize,
    pub prop: PropertyInfo,
}

/// The properties and signals that every item of one kind has, each with its
/// place within the item.
#[derive(Clone, Debug)]
pub struct ItemRTTI {
    pub properties: Vec<(String, PropertyInfo)>,
    pub signals: Vec<(String, usize)>,
}

/// An item of a component: its kind, and the first of its slots.
#[derive(Clone, Debug)]
pub struct ItemWithinComponent {
    pub offset: usize,
    pub rtti: ItemRTTI,
}

/// A component type: where the properties, items and signals of its instances lie.
#[derive(Clone, Debug)]
pub struct ComponentDescription {
    /// The index, in the element tree, of the component that this type is built from.
    pub original: usize,
    /// The properties that the component declares, by name.
    pub custom_properties: Vec<(String, PropertiesWithinComponent)>,
    /// The items of the component, by the id of their element.
    pub items: Vec<(String, ItemWithinComponent)>,
    /// The signals that the component declares, by name, each with its slot.
    pub custom_signals: Vec<(String, usize)>,
}

/// The element tree and the component types built from it.
#[derive(Clone, Debug)]
pub struct Document {
    pub tree: ElementTree,
    pub component_types: Vec<ComponentDescription>,
}

impl Document {
    /// Whether the store holds the instance, and the document its type.
    pub open spec fn knows_instance(&self, st: StoreView, component: usize) -> bool {
        &&& component < st.instances.len()
        &&& st.instances[component as int].component_type < self.component_types.len()
    }

    /// The type of an instance.
    pub open spec fn type_of_instance(&self, st: StoreView, component: usize) -> ComponentDescription {
        self.component_types[st.instances[component as int].component_type as int]
    }
}

/// A live instance of a component type.
#[derive(Clone, Debug)]
pub struct ComponentInstance {
    /// The index of the instance's type among the component types of the document.
    pub component_type: usize,
    /// The slots of the instance: the current values of its properties.
    pub properties: Vec<Value>,
}

/// One emission of a signal: the instance, and the slot of the signal in it.
#[derive(Clone, Copy, Debug, PartialEq, Eq, Structural)]
pub struct SignalEmission {
    pub component: usize,
    pub signal: usize,
}

/// All live instances, and the signals emitted so far, oldest first.
#[derive(Clone, Debug)]
pub struct InstanceStore {
    pub instances: Vec<ComponentInstance>,
    pub emitted: Vec<SignalEmission>,
}

/// Where an expression is evaluated: an instance, by its index in the store,
/// and the context of the instance around it, if there is one.
#[derive(Debug)]
pub struct EvaluationContext {
    pub component: usize,
    pub parent_context: Option<Box<EvaluationContext>>,
}

/// What a [`ComponentInstance`] stands for.
pub ghost struct InstanceView {
    pub component_type: usize,
    pub properties: Seq<ValueView>,
}

/// What an [`InstanceStore`] stands for.
pub ghost struct StoreView {
    pub instances: Seq<InstanceView>,
    pub emitted: Seq<SignalEmission>,
}

/// What the slots of an instance stand for.
pub open spec fn slots_view(slots: Seq<Value>) -> Seq<ValueView> {
    Seq::new(slots.len(), |i: int| slots[i]@)
}

impl View for ComponentInstance {
    type V = InstanceView;

    open spec fn view(&self) -> InstanceView {
        InstanceView { component_type: self.component_type, properties: slots_view(self.properties@) }
    }
}

impl View for InstanceStore {
    type V = StoreView;

    open spec fn view(&self) -> StoreView {
        StoreView {
            instances: Seq::new(self.instances.len() as nat, |i: int| self.instances[i]@),
            emitted: self.emitted@,
        }
    }
}

impl StoreView {
    /// The value in a slot of an instance, if there is such a slot.
    pub open spec fn read(self, component: usize, slot: int) -> Option<ValueView> {
        if component < self.instances.len() && 0 <= slot < self.instances[component as int].properties.len() {
            Some(self.instances[component as int].properties[slot])
        } else {
            None
        }
    }

    /// The store with one slot of one instance set to a value.
    pub open spec fn write(self, component: usize, slot: int, value: ValueView) -> StoreView {
        StoreView {
            instances: self.instances.update(
                component as int,
                InstanceView {
                    component_type: self.instances[component as int].component_type,
                    properties: self.instances[component as int].properties.update(slot, value),
                },
            ),
            emitted: self.emitted,
        }
    }

    /// The store with one more emission.
    pub open spec fn emit(self, emission: SignalEmission) -> StoreView {
        StoreView { instances: self.instances, emitted: self.emitted.push(emission) }
    }
}

/// Why a write to a slot was refused.
#[derive(Clone, Copy, Debug, PartialEq, Eq, Structural)]
pub enum WriteError {
    /// There is no such slot.
    OutOfRange,
    /// The property does not take values of that kind.
    Incompatible,
}

impl InstanceStore {
    /// The current value of a property of the item at `item` in an instance.
    pub fn read(&self, component: usize, item: usize, prop: &PropertyInfo) -> (r: Option<Value>)
        ensures
            r is Some <==> self@.read(component, item + prop.offset) is Some,
            r matches Some(v) ==> Some(v@) == self@.read(component, item + prop.offset),
    {
        if component >= self.instances.len() {
            return None;
        }
        match prop.get(&self.instances[component].properties, item) {
            Ok(v) => Some(v),
            Err(_) => None,
        }
    }

    /// Sets a property of the item at `item` in an instance. A write that is
    /// refused changes nothing.
    pub fn write(&mut self, component: usize, item: usize, prop: &PropertyInfo, value: Value) -> (r:
        Result<(), WriteError>)
        ensures
            match r {
                Ok(_) => {
                    &&& old(self)@.read(component, item + prop.offset) is Some
                    &&& prop.accepts(value@)
                    &&& final(self)@ == old(self)@.write(component, item + prop.offset, value@)
                },
                Err(WriteError::OutOfRange) => {
                    &&& old(self)@.read(component, item + prop.offset) is None
                    &&& *final(self) == *old(self)
                },
                Err(WriteError::Incompatible) => {
                    &&& old(self)@.read(component, item + prop.offset) is Some
                    &&& !prop.accepts(value@)
                    &&& *final(self) == *old(self)
                },
            },
    {
        if component >= self.instances.len() {
            return Err(WriteError::OutOfRange);
        }
        let in_range = item < self.instances[component].properties.len() && prop.offset
            < self.instances[component].properties.len() - item;
        if !in_range {
            return Err(WriteError::OutOfRange);
        }
        if value.kind() != prop.kind {
            return Err(WriteError::Incompatible);
        }
        let ghost before = self@;
        let ghost value_view = value@;
        let instance = &mut self.instances[component];
        let outcome = prop.set(&mut instance.properties, item, value, None);
        proof {
            assert(outcome is Ok);
            let after = self@;
            let expected = before.write(component, item + prop.offset, value_view);
            assert forall|i: int| 0 <= i < after.instances.len() implies after.instances[i]
                == expected.instances[i] by {
                if i == component {
                    assert(after.instances[i].properties =~= expected.instances[i].properties);
                }
            }
            assert(after.instances =~= expected.instances);
        }
        Ok(())
    }

    /// Records the emission of a signal.
    pub fn emit(&mut self, emission: SignalEmission)
        ensures
            final(self)@ == old(self)@.emit(emission),
    {
        self.emitted.push(emission);
        assert(self@.instances =~= old(self)@.instances);
    }
}

} // verus!
