//! A test case in reverse Polish notation.

use vstd::prelude::*;

verus! {

/// A function of two inputs `x` and `y`, written as a sequence of tokens in
/// reverse Polish notation.
#[derive(Debug)]
pub struct TestDefinition {
    pub name: String,
    pub description: String,
    pub expression_rpn: Vec<String>,
    pub num_inputs: usize,
    pub num_outputs: usize,
}

impl Clone for TestDefinition {
    fn clone(&self) -> (r: Self)
        ensures
            r.name@ == self.name@,
            r.description@ == self.description@,
            crate::text::lines(r.expression_rpn@) == crate::text::lines(self.expression_rpn@),
            r.num_inputs == self.num_inputs,
            r.num_outputs == self.num_outputs,
    {
        let mut tokens: Vec<String> = Vec::new();
        let mut i: usize = 0;
        while i < self.expression_rpn.len()
            invariant
                i <= self.expression_rpn@.len(),
                crate::text::lines(tokens@) == crate::text::lines(
                    self.expression_rpn@.take(i as int),
                ),
            decreases self.expression_rpn@.len() - i,
        {
            crate::text::push_line(&mut tokens, self.expression_rpn[i].clone());
            assert(crate::text::lines(tokens@) =~= crate::text::lines(
                self.expression_rpn@.take(i as int + 1),
            ));
            i = i + 1;
        }
        assert(self.expression_rpn@.take(self.expression_rpn@.len() as int)
            =~= self.expression_rpn@);
        TestDefinition {
            name: self.name.clone(),
            description: self.description.clone(),
            expression_rpn: tokens,
            num_inputs: self.num_inputs,
            num_outputs: self.num_outputs,
        }
    }
}

} // verus!
