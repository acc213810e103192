use vstd::prelude::*;

verus! {

/// The value that a piece of data stands for, apart from how it is held in
/// memory. A number stands for itself, a vector for the sequence of what its
/// elements stand for, and a box for what is in it. The contracts of the codec
/// speak of these values.
pub trait Model {
    type V;

    spec fn model(&self) -> Self::V;
}

impl Model for () {
    type V = ();

    open spec fn model(&self) -> () {
        *self
    }
}

impl Model for bool {
    type V = bool;

    open spec fn model(&self) -> bool {
        *self
    }
}

impl Model for u8 {
    type V = u8;

    open spec fn model(&self) -> u8 {
        *self
    }
}

impl Model for u16 {
    type V = u16;

    open spec fn model(&self) -> u16 {
        *self
    }
}

impl Model for u32 {
    type V = u32;

    open spec fn model(&self) -> u32 {
        *self
    }
}

impl Model for u64 {
    type V = u64;

    open spec fn model(&self) -> u64 {
        *self
    }
}

impl Model for usize {
    type V = usize;

    open spec fn model(&self) -> usize {
        *self
    }
}

impl Model for i8 {
    type V = i8;

    open spec fn model(&self) -> i8 {
        *self
    }
}

impl Model for i16 {
    type V = i16;

    open spec fn model(&self) -> i16 {
        *self
    }
}

impl Model for i32 {
    type V = i32;

    open spec fn model(&self) -> i32 {
        *self
    }
}

impl Model for i64 {
    type V = i64;

    open spec fn model(&self) -> i64 {
        *self
    }
}

impl Model for isize {
    type V = isize;

    open spec fn model(&self) -> isize {
        *self
    }
}

impl<T: Model> Model for Option<T> {
    type V = Option<T::V>;

    open spec fn model(&self) -> Option<T::V> {
        match self {
            Some(value) => Some(value.model()),
            None => None,
        }
    }
}

impl<T: Model + ?Sized> Model for Box<T> {
    type V = T::V;

    open spec fn model(&self) -> T::V {
        (**self).model()
    }
}

/// The values that the items of `items` stand for.
pub open spec fn seq_model<T: Model>(items: Seq<T>) -> Seq<T::V> {
    Seq::new(items.len(), |i: int| items[i].model())
}

impl<T: Model> Model for Vec<T> {
    type V = Seq<T::V>;

    open spec fn model(&self) -> Seq<T::V> {
        seq_model(self@)
    }
}

impl<T: Model> Model for [T] {
    type V = Seq<T::V>;

    open spec fn model(&self) -> Seq<T::V> {
        seq_model(self@)
    }
}

impl<T: Model, const N: usize> Model for [T; N] {
    type V = Seq<T::V>;

    open spec fn model(&self) -> Seq<T::V> {
        seq_model(self@)
    }
}

impl<T0: Model> Model for (T0,) {
    type V = (T0::V,);

    open spec fn model(&self) -> (T0::V,) {
        (self.0.model(),)
    }
}

impl<T0: Model, T1: Model> Model for (T0, T1) {
    type V = (T0::V, T1::V);

    open spec fn model(&self) -> (T0::V, T1::V) {
        (self.0.model(), self.1.model())
    }
}

impl<T0: Model, T1: Model, T2: Model> Model for (T0, T1, T2) {
    type V = (T0::V, T1::V, T2::V);

    open spec fn model(&self) -> (T0::V, T1::V, T2::V) {
        (self.0.model(), self.1.model(), self.2.model())
    }
}

impl<T0: Model, T1: Model, T2: Model, T3: Model> Model for (T0, T1, T2, T3) {
    type V = (T0::V, T1::V, T2::V, T3::V);

    open spec fn model(&self) -> (T0::V, T1::V, T2::V, T3::V) {
        (self.0.model(), self.1.model(), self.2.model(), self.3.model())
    }
}

impl<T0: Model, T1: Model, T2: Model, T3: Model, T4: Model> Model for (T0, T1, T2, T3, T4) {
    type V = (T0::V, T1::V, T2::V, T3::V, T4::V);

    open spec fn model(&self) -> (T0::V, T1::V, T2::V, T3::V, T4::V) {
        (self.0.model(), self.1.model(), self.2.model(), self.3.model(), self.4.model())
    }
}

impl<
    T0: Model,
    T1: Model,
    T2: Model,
    T3: Model,
    T4: Model,
    T5: Model,
> Model for (T0, T1, T2, T3, T4, T5) {
    type V = (T0::V, T1::V, T2::V, T3::V, T4::V, T5::V);

    open spec fn model(&self) -> (T0::V, T1::V, T2::V, T3::V, T4::V, T5::V) {
        (
            self.0.model(),
            self.1.model(),
            self.2.model(),
            self.3.model(),
            self.4.model(),
            self.5.model(),
        )
    }
}

impl<
    T0: Model,
    T1: Model,
    T2: Model,
    T3: Model,
    T4: Model,
    T5: Model,
    T6: Model,
> Model for (T0, T1, T2, T3, T4, T5, T6) {
    type V = (T0::V, T1::V, T2::V, T3::V, T4::V, T5::V, T6::V);

    open spec fn model(&self) -> (T0::V, T1::V, T2::V, T3::V, T4::V, T5::V, T6::V) {
        (
            self.0.model(),
            self.1.model(),
            self.2.model(),
            self.3.model(),
            self.4.model(),
            self.5.model(),
            self.6.model(),
        )
    }
}

impl<
    T0: Model,
    T1: Model,
    T2: Model,
    T3: Model,
    T4: Model,
    T5: Model,
    T6: Model,
    T7: Model,
> Model for (T0, T1, T2, T3, T4, T5, T6, T7) {
    type V = (T0::V, T1::V, T2::V, T3::V, T4::V, T5::V, T6::V, T7::V);

    open spec fn model(&self) -> (T0::V, T1::V, T2::V, T3::V, T4::V, T5::V, T6::V, T7::V) {
        (
            self.0.model(),
            self.1.model(),
            self.2.model(),
            self.3.model(),
            self.4.model(),
            self.5.model(),
            self.6.model(),
            self.7.model(),
        )
    }
}

impl<
    T0: Model,
    T1: Model,
    T2: Model,
    T3: Model,
    T4: Model,
    T5: Model,
    T6: Model,
    T7: Model,
    T8: Model,
> Model for (T0, T1, T2, T3, T4, T5, T6, T7, T8) {
    type V = (T0::V, T1::V, T2::V, T3::V, T4::V, T5::V, T6::V, T7::V, T8::V);

    open spec fn model(&self) -> (T0::V, T1::V, T2::V, T3::V, T4::V, T5::V, T6::V, T7::V, T8::V) {
        (
            self.0.model(),
            self.1.model(),
            self.2.model(),
            self.3.model(),
            self.4.model(),
            self.5.model(),
            self.6.model(),
            self.7.model(),
            self.8.model(),
        )
    }
}

impl<
    T0: Model,
    T1: Model,
    T2: Model,
    T3: Model,
    T4: Model,
    T5: Model,
    T6: Model,
    T7: Model,
    T8: Model,
    T9: Model,
> Model for (T0, T1, T2, T3, T4, T5, T6, T7, T8, T9) {
    type V = (
        T0::V,
        T1::V,
        T2::V,
        T3::V,
        T4::V,
        T5::V,
        T6::V,
        T7::V,
        T8::V,
        T9::V,
    );

    open spec fn model(&self) -> (
        T0::V,
        T1::V,
        T2::V,
        T3::V,
        T4::V,
        T5::V,
        T6::V,
        T7::V,
        T8::V,
        T9::V,
    ) {
        (
            self.0.model(),
            self.1.model(),
            self.2.model(),
            self.3.model(),
            self.4.model(),
            self.5.model(),
            self.6.model(),
            self.7.model(),
            self.8.model(),
            self.9.model(),
        )
    }
}

impl<
    T0: Model,
    T1: Model,
    T2: Model,
    T3: Model,
    T4: Model,
    T5: Model,
    T6: Model,
    T7: Model,
    T8: Model,
    T9: Model,
    T10: Model,
> Model for (T0, T1, T2, T3, T4, T5, T6, T7, T8, T9, T10) {
    type V = (
        T0::V,
        T1::V,
        T2::V,
        T3::V,
        T4::V,
        T5::V,
        T6::V,
        T7::V,
        T8::V,
        T9::V,
        T10::V,
    );

    open spec fn model(&self) -> (
        T0::V,
        T1::V,
        T2::V,
        T3::V,
        T4::V,
        T5::V,
        T6::V,
        T7::V,
        T8::V,
        T9::V,
        T10::V,
    ) {
        (
            self.0.model(),
            self.1.model(),
            self.2.model(),
            self.3.model(),
            self.4.model(),
            self.5.model(),
            self.6.model(),
            self.7.model(),
            self.8.model(),
            self.9.model(),
            self.10.model(),
        )
    }
}

impl<
    T0: Model,
    T1: Model,
    T2: Model,
    T3: Model,
    T4: Model,
    T5: Model,
    T6: Model,
    T7: Model,
    T8: Model,
    T9: Model,
    T10: Model,
    T11: Model,
> Model for (T0, T1, T2, T3, T4, T5, T6, T7, T8, T9, T10, T11) {
    type V = (
        T0::V,
        T1::V,
        T2::V,
        T3::V,
        T4::V,
        T5::V,
        T6::V,
        T7::V,
        T8::V,
        T9::V,
        T10::V,
        T11::V,
    );

    open spec fn model(&self) -> (
        T0::V,
        T1::V,
        T2::V,
        T3::V,
        T4::V,
        T5::V,
        T6::V,
        T7::V,
        T8::V,
        T9::V,
        T10::V,
        T11::V,
    ) {
        (
            self.0.model(),
            self.1.model(),
            self.2.model(),
            self.3.model(),
            self.4.model(),
            self.5.model(),
            self.6.model(),
            self.7.model(),
            self.8.model(),
            self.9.model(),
            self.10.model(),
            self.11.model(),
        )
    }
}

impl<
    T0: Model,
    T1: Model,
    T2: Model,
    T3: Model,
    T4: Model,
    T5: Model,
    T6: Model,
    T7: Model,
    T8: Model,
    T9: Model,
    T10: Model,
    T11: Model,
    T12: Model,
> Model for (T0, T1, T2, T3, T4, T5, T6, T7, T8, T9, T10, T11, T12) {
    type V = (
        T0::V,
        T1::V,
        T2::V,
        T3::V,
        T4::V,
        T5::V,
        T6::V,
        T7::V,
        T8::V,
        T9::V,
        T10::V,
        T11::V,
        T12::V,
    );

    open spec fn model(&self) -> (
        T0::V,
        T1::V,
        T2::V,
        T3::V,
        T4::V,
        T5::V,
        T6::V,
        T7::V,
        T8::V,
        T9::V,
        T10::V,
        T11::V,
        T12::V,
    ) {
        (
            self.0.model(),
            self.1.model(),
            self.2.model(),
            self.3.model(),
            self.4.model(),
            self.5.model(),
            self.6.model(),
            self.7.model(),
            self.8.model(),
            self.9.model(),
            self.10.model(),
            self.11.model(),
            self.12.model(),
        )
    }
}

impl<
    T0: Model,
    T1: Model,
    T2: Model,
    T3: Model,
    T4: Model,
    T5: Model,
    T6: Model,
    T7: Model,
    T8: Model,
    T9: Model,
    T10: Model,
    T11: Model,
    T12: Model,
    T13: Model,
> Model for (T0, T1, T2, T3, T4, T5, T6, T7, T8, T9, T10, T11, T12, T13) {
    type V = (
        T0::V,
        T1::V,
        T2::V,
        T3::V,
        T4::V,
        T5::V,
        T6::V,
        T7::V,
        T8::V,
        T9::V,
        T10::V,
        T11::V,
        T12::V,
        T13::V,
    );

    open spec fn model(&self) -> (
        T0::V,
        T1::V,
        T2::V,
        T3::V,
        T4::V,
        T5::V,
        T6::V,
        T7::V,
        T8::V,
        T9::V,
        T10::V,
        T11::V,
        T12::V,
        T13::V,
    ) {
        (
            self.0.model(),
            self.1.model(),
            self.2.model(),
            self.3.model(),
            self.4.model(),
            self.5.model(),
            self.6.model(),
            self.7.model(),
            self.8.model(),
            self.9.model(),
            self.10.model(),
            self.11.model(),
            self.12.model(),
            self.13.model(),
        )
    }
}

impl<
    T0: Model,
    T1: Model,
    T2: Model,
    T3: Model,
    T4: Model,
    T5: Model,
    T6: Model,
    T7: Model,
    T8: Model,
    T9: Model,
    T10: Model,
    T11: Model,
    T12: Model,
    T13: Model,
    T14: Model,
> Model for (T0, T1, T2, T3, T4, T5, T6, T7, T8, T9, T10, T11, T12, T13, T14) {
    type V = (
        T0::V,
        T1::V,
        T2::V,
        T3::V,
        T4::V,
        T5::V,
        T6::V,
        T7::V,
        T8::V,
        T9::V,
        T10::V,
        T11::V,
        T12::V,
        T13::V,
        T14::V,
    );

    open spec fn model(&self) -> (
        T0::V,
        T1::V,
        T2::V,
        T3::V,
        T4::V,
        T5::V,
        T6::V,
        T7::V,
        T8::V,
        T9::V,
        T10::V,
        T11::V,
        T12::V,
        T13::V,
        T14::V,
    ) {
        (
            self.0.model(),
            self.1.model(),
            self.2.model(),
            self.3.model(),
            self.4.model(),
            self.5.model(),
            self.6.model(),
            self.7.model(),
            self.8.model(),
            self.9.model(),
            self.10.model(),
            self.11.model(),
            self.12.model(),
            self.13.model(),
            self.14.model(),
        )
    }
}

impl<
    T0: Model,
    T1: Model,
    T2: Model,
    T3: Model,
    T4: Model,
    T5: Model,
    T6: Model,
    T7: Model,
    T8: Model,
    T9: Model,
    T10: Model,
    T11: Model,
    T12: Model,
    T13: Model,
    T14: Model,
    T15: Model,
> Model for (T0, T1, T2, T3, T4, T5, T6, T7, T8, T9, T10, T11, T12, T13, T14, T15) {
    type V = (
        T0::V,
        T1::V,
        T2::V,
        T3::V,
        T4::V,
        T5::V,
        T6::V,
        T7::V,
        T8::V,
        T9::V,
        T10::V,
        T11::V,
        T12::V,
        T13::V,
        T14::V,
        T15::V,
    );

    open spec fn model(&self) -> (
        T0::V,
        T1::V,
        T2::V,
        T3::V,
        T4::V,
        T5::V,
        T6::V,
        T7::V,
        T8::V,
        T9::V,
        T10::V,
        T11::V,
        T12::V,
        T13::V,
        T14::V,
        T15::V,
    ) {
        (
            self.0.model(),
            self.1.model(),
            self.2.model(),
            self.3.model(),
            self.4.model(),
            self.5.model(),
            self.6.model(),
            self.7.model(),
            self.8.model(),
            self.9.model(),
            self.10.model(),
            self.11.model(),
            self.12.model(),
            self.13.model(),
            self.14.model(),
            self.15.model(),
        )
    }
}

} // verus!
